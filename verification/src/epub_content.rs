//! A content file of the book: its bytes, its table-of-contents entry, and
//! an optional reference type for the guide/landmarks sections.

use vstd::prelude::*;

use crate::toc::child_model;
use crate::toc::height_model;
use crate::toc::ElemModel;
use crate::toc::TocElement;

verus! {

/// Represents the possible reference type of an EPUB page.
///
/// Used by the guide section of EPUB 2.0 and the landmarks navigation
/// section for EPUB 3.0.
#[derive(Debug, Clone, Copy, PartialEq, Eq, Structural)]
pub enum ReferenceType {
    /// The book cover(s) (this refers to the cover PAGE, not the cover IMAGE)
    Cover,
    /// Page with title, author, publisher
    TitlePage,
    /// Table of contents
    Toc,
    /// Index
    Index,
    /// Glossary
    Glossary,
    /// Acknowledgements
    Acknowledgements,
    /// Bibliography
    Bibliography,
    /// Colophon
    Colophon,
    /// Copyright page
    Copyright,
    /// Dedication
    Dedication,
    /// Epigraph
    Epigraph,
    /// Foreword
    Foreword,
    /// List of illustrations
    Loi,
    /// List of tables
    Lot,
    /// Notes
    Notes,
    /// Preface
    Preface,
    /// Beginning of the real content
    Text,
}

/// Represents a XHTML file that can be added to an EPUB document.
///
/// This struct is designed to be used with the `add_content` method of the
/// builder. The content is carried as plain bytes; the caller reads its
/// source wherever it lives and hands the bytes over.
#[derive(Debug)]
pub struct EpubContent {
    /// The title and url, plus sublevels
    pub toc: TocElement,
    /// The content
    pub content: Vec<u8>,
    /// Properties, for the guide section
    pub reftype: Option<ReferenceType>,
}

impl EpubContent {
    /// Creates a new EpubContent.
    ///
    /// By default, this element is at level 1, and it has no title (meaning
    /// it won't be added to the table of contents).
    pub fn new(href: &str, content: Vec<u8>) -> (r: EpubContent)
        ensures
            r.toc.model() == (ElemModel {
                level: 1,
                url: href@,
                title: Seq::empty(),
                raw_title: Option::None,
                children: Seq::empty(),
            }),
            r.content@ == content@,
            r.reftype is None,
    {
        let r = EpubContent { content, toc: TocElement::new(href, ""), reftype: Option::None };
        proof {
            reveal_strlit("");
            assert(""@ =~= Seq::<char>::empty());
        }
        r
    }

    /// Set the title of this content. If no title is set, this part of the
    /// book will not be displayed in the table of contents.
    pub fn title(self, title: &str) -> (r: EpubContent)
        ensures
            r.toc.model() == (ElemModel { title: title@, ..self.toc.model() }),
            r.content@ == self.content@,
            r.reftype == self.reftype,
    {
        let mut this = self;
        this.toc.title = title.to_owned();
        this
    }

    /// Set the raw title of this content. Only useful if you disable HTML
    /// escaping and do it yourself.
    ///
    /// This raw title must contain no HTML tags but should still be escaped:
    /// it can contain `&lt;` or `&gt;`, but you have to make sure you encode
    /// all of this properly.
    pub fn raw_title(self, raw_title: &str) -> (r: EpubContent)
        ensures
            r.toc.model() == (ElemModel {
                raw_title: Option::Some(raw_title@),
                ..self.toc.model()
            }),
            r.content@ == self.content@,
            r.reftype == self.reftype,
    {
        let mut this = self;
        this.toc.raw_title = Option::Some(raw_title.to_owned());
        this
    }

    /// Set the level.
    pub fn level(self, level: i32) -> (r: EpubContent)
        ensures
            r.toc.model() == (ElemModel { level: level as int, ..self.toc.model() }),
            r.content@ == self.content@,
            r.reftype == self.reftype,
    {
        let mut this = self;
        this.toc = this.toc.level(level);
        this
    }

    /// Adds a sublevel to the toc.
    pub fn child(self, elem: TocElement) -> (r: EpubContent)
        requires
            elem.model().level > self.toc.model().level || self.toc.model().level + height_model(
                elem.model(),
            ) <= i32::MAX,
        ensures
            r.toc.model() == child_model(self.toc.model(), elem.model()),
            r.content@ == self.content@,
            r.reftype == self.reftype,
    {
        let mut this = self;
        this.toc = this.toc.child(elem);
        this
    }

    /// Sets the reference type of this content.
    ///
    /// If this is set, the item is listed as a reference in the guide
    /// section (EPUB 2.0) or in the landmarks navigation section (EPUB 3.0).
    pub fn reftype(self, reftype: ReferenceType) -> (r: EpubContent)
        ensures
            r.toc == self.toc,
            r.content@ == self.content@,
            r.reftype == Option::Some(reftype),
    {
        let mut this = self;
        this.reftype = Option::Some(reftype);
        this
    }
}

} // verus!
