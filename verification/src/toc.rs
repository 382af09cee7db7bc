//! The table of contents: a tree of titled entries rebuilt from a flat,
//! ordered sequence of additions, and rendered either as a nested HTML list
//! or as EPUB navigation points with sequential play-order numbering.
//!
//! Every operation is specified against a ghost model of the tree
//! ([`ElemModel`]), so the contracts pin down both the shape of the tree that
//! the insertion policy produces and the exact text that the renderers emit.

use vstd::prelude::*;

use crate::common::append_str;
use crate::common::chars_to_string;
use crate::common::dec_str;
use crate::common::indent;
use crate::common::indent_text;
use crate::common::to_chars;
use crate::common::u32_dec_chars;
use crate::escape::enc_html;
use crate::escape::encode_html;
use crate::escape::esc_attr;
use crate::escape::esc_text;
use crate::escape::escape_attr_exec;
use crate::escape::escape_text_exec;
use crate::escape::trim_exec;
use crate::escape::trim_of;

verus! {

broadcast use vstd::seq_lib::group_seq_properties;

/// An element of the table of contents.
///
/// `level` is the nesting depth (0: part, 1: chapter, 2: section, ...);
/// `url` is the link target, opaque to the tree logic; `title` is the
/// human-readable label, and `raw_title` an already-markup-safe alternate
/// used verbatim in EPUB navigation output when present. Children are owned
/// by their parent: the structure is a pure tree.
#[derive(Debug)]
pub struct TocElement {
    /// The level. 0: part, 1: chapter, 2: section, ...
    pub level: i32,
    /// The link
    pub url: String,
    /// Title of this entry
    pub title: String,
    /// Title of this entry without HTML tags (if None, defaults to the main one)
    pub raw_title: Option<String>,
    /// Inner elements
    pub children: Vec<TocElement>,
}

/// The mathematical shape of a [`TocElement`]: the same fields over `int`,
/// `Seq<char>` and a sequence of child models.
pub ghost struct ElemModel {
    pub level: int,
    pub url: Seq<char>,
    pub title: Seq<char>,
    pub raw_title: Option<Seq<char>>,
    pub children: Seq<ElemModel>,
}

/// The models of a sequence of elements, in order.
pub open spec fn models_of(s: Seq<TocElement>) -> Seq<ElemModel>
    decreases s,
{
    if s.len() == 0 {
        Seq::empty()
    } else {
        seq![s[0].model()] + models_of(s.drop_first())
    }
}

impl TocElement {
    /// The ghost model of this element.
    pub open spec fn model(self) -> ElemModel
        decreases self,
    {
        ElemModel {
            level: self.level as int,
            url: self.url@,
            title: self.title@,
            raw_title: match self.raw_title {
                Option::Some(s) => Option::Some(s@),
                Option::None => Option::None,
            },
            children: models_of(self.children@),
        }
    }
}

pub proof fn lemma_models_of(s: Seq<TocElement>)
    ensures
        models_of(s).len() == s.len(),
        forall|i: int| 0 <= i < s.len() ==> models_of(s)[i] == s[i].model(),
    decreases s,
{
    if s.len() > 0 {
        lemma_models_of(s.drop_first());
    }
}

/// The number of nodes in a tree.
pub open spec fn count_model(m: ElemModel) -> nat
    decreases m,
{
    1 + count_models(m.children)
}

/// The number of nodes in a forest.
pub open spec fn count_models(s: Seq<ElemModel>) -> nat
    decreases s,
{
    if s.len() == 0 {
        0
    } else {
        count_model(s[0]) + count_models(s.drop_first())
    }
}

/// The height of a tree: one more than the height of its tallest subtree.
pub open spec fn height_model(m: ElemModel) -> nat
    decreases m,
{
    1 + height_children(m.children)
}

/// The height of the tallest tree in a forest (zero if it is empty).
pub open spec fn height_children(s: Seq<ElemModel>) -> nat
    decreases s,
{
    if s.len() == 0 {
        0
    } else if height_model(s[0]) >= height_children(s.drop_first()) {
        height_model(s[0])
    } else {
        height_children(s.drop_first())
    }
}

pub proof fn lemma_height_children(s: Seq<ElemModel>)
    ensures
        forall|i: int| 0 <= i < s.len() ==> height_model(s[i]) <= height_children(s),
    decreases s,
{
    if s.len() > 0 {
        lemma_height_children(s.drop_first());
        assert forall|i: int| 0 <= i < s.len() implies height_model(s[i]) <= height_children(
            s,
        ) by {
            if i > 0 {
                assert(s.drop_first()[i - 1] == s[i]);
            }
        }
    }
}

/// Level renormalization, as `child` applies it: the node's level becomes
/// `l`, and every child whose level does not already exceed `l` is
/// renormalized in turn to `l + 1`.
pub open spec fn level_up_model(n: ElemModel, l: int) -> ElemModel
    decreases n,
{
    ElemModel { level: l, children: level_up_children(n.children, l), ..n }
}

/// The children's part of [`level_up_model`].
pub open spec fn level_up_children(s: Seq<ElemModel>, l: int) -> Seq<ElemModel>
    decreases s,
{
    if s.len() == 0 {
        s
    } else {
        let c0 = if s[0].level <= l {
            level_up_model(s[0], l + 1)
        } else {
            s[0]
        };
        seq![c0] + level_up_children(s.drop_first(), l)
    }
}

pub proof fn lemma_level_up_children(s: Seq<ElemModel>, l: int)
    ensures
        level_up_children(s, l).len() == s.len(),
        forall|i: int|
            0 <= i < s.len() ==> level_up_children(s, l)[i] == (if s[i].level <= l {
                level_up_model(s[i], l + 1)
            } else {
                s[i]
            }),
    decreases s,
{
    if s.len() > 0 {
        lemma_level_up_children(s.drop_first(), l);
    }
}

/// Attaching an explicit child: if its level does not exceed the parent's,
/// it is renormalized to `parent.level + 1` first; then it is appended to
/// the parent's children.
pub open spec fn child_model(p: ElemModel, c: ElemModel) -> ElemModel {
    if c.level <= p.level {
        ElemModel { children: p.children.push(level_up_model(c, p.level + 1)), ..p }
    } else {
        ElemModel { children: p.children.push(c), ..p }
    }
}

/// Level-directed insertion into a node: if the node has children and the
/// new entry's level exceeds the last child's level, the entry descends into
/// that last child; otherwise it becomes a new last child.
pub open spec fn add_to_node(n: ElemModel, e: ElemModel) -> ElemModel
    decreases n,
{
    if n.children.len() > 0 && e.level > n.children.last().level {
        ElemModel {
            children: n.children.update(
                n.children.len() - 1,
                add_to_node(n.children.last(), e),
            ),
            ..n
        }
    } else {
        ElemModel { children: n.children.push(e), ..n }
    }
}

/// The same insertion policy at the top level of the table of contents.
pub open spec fn toc_insert(s: Seq<ElemModel>, e: ElemModel) -> Seq<ElemModel> {
    if s.len() > 0 && e.level > s.last().level {
        s.update(s.len() - 1, add_to_node(s.last(), e))
    } else {
        s.push(e)
    }
}

impl TocElement {
    /// Creates a new element of the toc.
    ///
    /// By default, the element's level is `1` and it has no children.
    pub fn new(url: &str, title: &str) -> (r: TocElement)
        ensures
            r.model() == (ElemModel {
                level: 1,
                url: url@,
                title: title@,
                raw_title: Option::None,
                children: Seq::empty(),
            }),
    {
        let r = TocElement {
            level: 1,
            url: url.to_owned(),
            title: title.to_owned(),
            raw_title: Option::None,
            children: Vec::new(),
        };
        proof {
            assert(models_of(r.children@) =~= Seq::<ElemModel>::empty());
        }
        r
    }

    /// Adds an alternate version of the title without HTML tags.
    ///
    /// Useful only if you disable escaping of HTML fields.
    pub fn raw_title(self, title: &str) -> (r: TocElement)
        ensures
            r.model() == (ElemModel { raw_title: Option::Some(title@), ..self.model() }),
    {
        TocElement { raw_title: Option::Some(title.to_owned()), ..self }
    }

    /// Sets the level of a TocElement.
    pub fn level(self, level: i32) -> (r: TocElement)
        ensures
            r.model() == (ElemModel { level: level as int, ..self.model() }),
    {
        TocElement { level, ..self }
    }

    /// Change level, recursively, so the structure keeps having some sense.
    fn level_up(&mut self, level: i32)
        requires
            level + height_model(old(self).model()) - 1 <= i32::MAX,
        ensures
            final(self).model() == level_up_model(old(self).model(), level as int),
        decreases *old(self),
    {
        self.level = level;
        let ghost orig = models_of(old(self).children@);
        let mut done: Vec<TocElement> = Vec::new();
        proof {
            lemma_models_of(old(self).children@);
            lemma_height_children(orig);
            assert(models_of(done@) =~= Seq::<ElemModel>::empty());
        }
        let mut i: usize = 0;
        let n = self.children.len();
        while i < n
            invariant
                n == old(self).children@.len(),
                i <= n,
                self.level == level,
                self.url == old(self).url,
                self.title == old(self).title,
                self.raw_title == old(self).raw_title,
                self.children@ == old(self).children@.skip(i as int),
                level + height_model(old(self).model()) - 1 <= i32::MAX,
                orig == models_of(old(self).children@),
                done@.len() == i,
                forall|j: int|
                    0 <= j < i ==> models_of(done@)[j] == (if orig[j].level <= level {
                        level_up_model(orig[j], level + 1)
                    } else {
                        orig[j]
                    }),
            decreases n - i,
        {
            proof {
                lemma_models_of(old(self).children@);
                lemma_height_children(orig);
                assert(self.children@[0] == old(self).children@[i as int]);
            }
            let mut c = self.children.remove(0);
            let ghost c_model = c.model();
            proof {
                assert(orig[i as int] == c_model);
                assert(height_model(c_model) <= height_children(orig));
                assert(height_children(orig) < height_model(old(self).model()));
            }
            if c.level <= level {
                c.level_up(level + 1);
            }
            let ghost done_pre = done@;
            done.push(c);
            proof {
                lemma_models_of(done_pre);
                lemma_models_of(done@);
                assert forall|j: int| 0 <= j < i + 1 implies models_of(done@)[j] == (
                if orig[j].level <= level {
                    level_up_model(orig[j], level + 1)
                } else {
                    orig[j]
                }) by {
                    if j < i {
                        assert(done@[j] == done_pre[j]);
                        assert(models_of(done_pre)[j] == done_pre[j].model());
                    } else {
                        assert(done@[j] == c);
                    }
                }
                assert(self.children@ =~= old(self).children@.skip(i + 1));
            }
            i = i + 1;
        }
        proof {
            assert(old(self).children@.skip(n as int) =~= Seq::<TocElement>::empty());
        }
        self.children = done;
        proof {
            lemma_models_of(self.children@);
            lemma_level_up_children(orig, level as int);
            assert(models_of(self.children@) =~= level_up_children(orig, level as int));
        }
    }

    /// Add a child to this element.
    ///
    /// This adjusts the level of the child to be the level of its parent,
    /// plus 1, so there is no point in manually setting the level on elements
    /// added with this method.
    pub fn child(self, child: TocElement) -> (r: TocElement)
        requires
            child.model().level > self.model().level || self.model().level + height_model(
                child.model(),
            ) <= i32::MAX,
        ensures
            r.model() == child_model(self.model(), child.model()),
    {
        let ghost p_model = self.model();
        let ghost p_children = self.children@;
        let mut this = self;
        let mut child = child;
        let ghost c_model = child.model();
        if child.level <= this.level {
            child.level_up(this.level + 1);
        }
        this.children.push(child);
        proof {
            lemma_models_of(p_children);
            let s = this.children@;
            lemma_models_of(s);
            assert(s.drop_last() =~= p_children);
            lemma_models_of(s.drop_last());
            if c_model.level <= p_model.level {
                assert(models_of(s) =~= p_model.children.push(
                    level_up_model(c_model, p_model.level + 1),
                ));
            } else {
                assert(models_of(s) =~= p_model.children.push(c_model));
            }
        }
        this
    }

    /// Add element to self or to children, according to its level.
    ///
    /// This adds `element` directly to `self` if its level is equal or less
    /// to the last child's level; else it inserts it into the last child.
    pub fn add(&mut self, element: TocElement)
        ensures
            final(self).model() == add_to_node(old(self).model(), element.model()),
        decreases *old(self),
    {
        proof {
            lemma_models_of(self.children@);
        }
        let n = self.children.len();
        let mut descend = false;
        if n > 0 {
            if element.level > self.children[n - 1].level {
                descend = true;
            }
        }
        if descend {
            let mut last = self.children.pop().unwrap();
            let ghost last_model = last.model();
            last.add(element);
            self.children.push(last);
            proof {
                let orig = models_of(old(self).children@);
                lemma_models_of(old(self).children@);
                lemma_models_of(self.children@);
                assert(self.children@.drop_last() =~= old(self).children@.drop_last());
                lemma_models_of(self.children@.drop_last());
                assert(models_of(self.children@) =~= orig.update(
                    orig.len() - 1,
                    add_to_node(last_model, element.model()),
                ));
            }
        } else {
            self.children.push(element);
            proof {
                let orig = models_of(old(self).children@);
                lemma_models_of(old(self).children@);
                lemma_models_of(self.children@);
                assert(self.children@.drop_last() =~= old(self).children@);
                lemma_models_of(self.children@.drop_last());
                assert(models_of(self.children@) =~= orig.push(element.model()));
            }
        }
    }
}

/// The text inside a navigation point's label: the raw title verbatim when
/// one is set, otherwise the escaped title; either way trimmed.
pub open spec fn title_for_epub(m: ElemModel) -> Seq<char> {
    match m.raw_title {
        Option::Some(r) => trim_of(r),
        Option::None => trim_of(esc_text(m.title)),
    }
}

/// One navigation point: the counter is bumped to give this node its id and
/// play order, the children are rendered with the same running counter, and
/// the result pairs the final counter with the markup fragment.
pub open spec fn render_epub_elem(m: ElemModel, offset: int, escape: bool) -> (int, Seq<char>)
    decreases m,
{
    let id = offset + 1;
    let rec = render_epub_children(m.children, id, escape);
    let kids_block = if m.children.len() == 0 {
        Seq::<char>::empty()
    } else {
        "\n"@ + indent_text(rec.1, 1)
    };
    (
        rec.0,
        "<navPoint playOrder=\""@ + esc_attr(dec_str(id)) + "\" id=\"navPoint-"@ + esc_attr(
            dec_str(id),
        ) + "\">\n  <navLabel>\n   <text>"@ + title_for_epub(m) + "</text>\n  </navLabel>\n  <content src=\""@
            + esc_attr(m.url) + "\"/>"@ + kids_block + "\n</navPoint>"@,
    )
}

/// Sibling navigation points, joined with line feeds, the counter threaded
/// left to right.
pub open spec fn render_epub_children(s: Seq<ElemModel>, offset: int, escape: bool) -> (
    int,
    Seq<char>,
)
    decreases s,
{
    if s.len() == 0 {
        (offset, Seq::<char>::empty())
    } else {
        let front = render_epub_children(s.drop_last(), offset, escape);
        let last = render_epub_elem(s.last(), front.0, escape);
        (
            last.0,
            if s.len() == 1 {
                last.1
            } else {
                front.1 + "\n"@ + last.1
            },
        )
    }
}

/// What [`Toc::render_epub`] returns: the joined navigation points of the
/// top-level elements, numbered from one, indented two levels.
pub open spec fn toc_render_epub(s: Seq<ElemModel>, escape: bool) -> Seq<char> {
    indent_text(render_epub_children(s, 0, escape).1, 2)
}

/// The counting in a forest can also be read off from the back.
pub proof fn lemma_count_models_back(s: Seq<ElemModel>)
    requires
        s.len() > 0,
    ensures
        count_models(s) == count_models(s.drop_last()) + count_model(s.last()),
    decreases s,
{
    if s.len() > 1 {
        lemma_count_models_back(s.drop_first());
        assert(s.drop_first().drop_last() =~= s.drop_last().drop_first());
        assert(s.drop_first().last() == s.last());
        assert(s.drop_last()[0] == s[0]);
        assert(count_models(s.drop_last()) == count_model(s[0]) + count_models(
            s.drop_last().drop_first(),
        ));
    } else {
        assert(s.drop_last() =~= Seq::<ElemModel>::empty());
        assert(s.drop_first() =~= Seq::<ElemModel>::empty());
    }
}

/// Splitting a forest splits its node count.
pub proof fn lemma_count_models_split(s: Seq<ElemModel>, k: int)
    requires
        0 <= k <= s.len(),
    ensures
        count_models(s) == count_models(s.take(k)) + count_models(s.skip(k)),
    decreases k,
{
    if k == 0 {
        assert(s.take(0) =~= Seq::<ElemModel>::empty());
        assert(s.skip(0) =~= s);
    } else {
        lemma_count_models_split(s, k - 1);
        assert(s.take(k).drop_last() =~= s.take(k - 1));
        assert(s.take(k).last() == s[k - 1]);
        lemma_count_models_back(s.take(k));
        assert(s.skip(k - 1)[0] == s[k - 1]);
        assert(s.skip(k - 1).drop_first() =~= s.skip(k));
        assert(count_models(s.skip(k - 1)) == count_model(s[k - 1]) + count_models(s.skip(k)));
    }
}

/// The counter comes back advanced by exactly the number of nodes rendered:
/// every node is numbered once.
pub proof fn lemma_epub_offset(m: ElemModel, offset: int, escape: bool)
    ensures
        render_epub_elem(m, offset, escape).0 == offset + count_model(m),
    decreases m,
{
    lemma_epub_children_offset(m.children, offset + 1, escape);
}

/// The forest part of [`lemma_epub_offset`].
pub proof fn lemma_epub_children_offset(s: Seq<ElemModel>, offset: int, escape: bool)
    ensures
        render_epub_children(s, offset, escape).0 == offset + count_models(s),
    decreases s,
{
    if s.len() > 0 {
        lemma_epub_children_offset(s.drop_last(), offset, escape);
        lemma_epub_offset(s.last(), render_epub_children(s.drop_last(), offset, escape).0, escape);
        lemma_count_models_back(s);
    }
}

/// Assemble one navigation point from its already-prepared pieces.
fn navpoint_text(
    esc_id: &str,
    title: &str,
    esc_url: &str,
    has_kids: bool,
    kids_indented: &str,
) -> (t: String)
    ensures
        t@ == "<navPoint playOrder=\""@ + esc_id@ + "\" id=\"navPoint-"@ + esc_id@
            + "\">\n  <navLabel>\n   <text>"@ + title@ + "</text>\n  </navLabel>\n  <content src=\""@
            + esc_url@ + "\"/>"@ + (if has_kids {
            "\n"@ + kids_indented@
        } else {
            Seq::<char>::empty()
        }) + "\n</navPoint>"@,
{
    let mut out: Vec<char> = to_chars("<navPoint playOrder=\"");
    append_str(&mut out, esc_id);
    append_str(&mut out, "\" id=\"navPoint-");
    append_str(&mut out, esc_id);
    append_str(&mut out, "\">\n  <navLabel>\n   <text>");
    append_str(&mut out, title);
    append_str(&mut out, "</text>\n  </navLabel>\n  <content src=\"");
    append_str(&mut out, esc_url);
    append_str(&mut out, "\"/>");
    let ghost before_kids = out@;
    if has_kids {
        append_str(&mut out, "\n");
        append_str(&mut out, kids_indented);
        assert(out@ =~= before_kids + ("\n"@ + kids_indented@));
    } else {
        assert(out@ =~= before_kids + Seq::<char>::empty());
    }
    append_str(&mut out, "\n</navPoint>");
    chars_to_string(&out)
}

/// Assemble a wrapped list block `<ol>`/`<ul>` around indented items.
fn list_block_text(tag: &str, inner_indented: &str) -> (t: String)
    ensures
        t@ == "<"@ + tag@ + ">\n"@ + inner_indented@ + "\n</"@ + tag@ + ">"@,
{
    let mut out: Vec<char> = to_chars("<");
    append_str(&mut out, tag);
    append_str(&mut out, ">\n");
    append_str(&mut out, inner_indented);
    append_str(&mut out, "\n</");
    append_str(&mut out, tag);
    append_str(&mut out, ">");
    chars_to_string(&out)
}

/// Assemble a single-line list item.
fn li_leaf_text(esc_url: &str, title: &str) -> (t: String)
    ensures
        t@ == "<li><a href=\""@ + esc_url@ + "\">"@ + title@ + "</a></li>"@,
{
    let mut out: Vec<char> = to_chars("<li><a href=\"");
    append_str(&mut out, esc_url);
    append_str(&mut out, "\">");
    append_str(&mut out, title);
    append_str(&mut out, "</a></li>");
    chars_to_string(&out)
}

/// Assemble a list item that carries a nested, already-indented block.
fn li_nested_text(esc_url: &str, title: &str, block_indented: &str) -> (t: String)
    ensures
        t@ == "<li>\n  <a href=\""@ + esc_url@ + "\">"@ + title@ + "</a>\n"@ + block_indented@
            + "\n</li>"@,
{
    let mut out: Vec<char> = to_chars("<li>\n  <a href=\"");
    append_str(&mut out, esc_url);
    append_str(&mut out, "\">");
    append_str(&mut out, title);
    append_str(&mut out, "</a>\n");
    append_str(&mut out, block_indented);
    append_str(&mut out, "\n</li>");
    chars_to_string(&out)
}

impl TocElement {
    /// Render element for Epub's toc.ncx format.
    ///
    /// The returned counter is the given one advanced once for this node and
    /// once for every descendant, so a sibling can continue the numbering.
    #[verifier::rlimit(50)]
    pub fn render_epub(&self, offset: u32, escape_html: bool) -> (r: (u32, String))
        requires
            offset + count_model(self.model()) <= u32::MAX,
        ensures
            r.0 == render_epub_elem(self.model(), offset as int, escape_html).0,
            r.1@ == render_epub_elem(self.model(), offset as int, escape_html).1,
        decreases *self,
    {
        let ghost m = self.model();
        let ghost kids = m.children;
        proof {
            lemma_models_of(self.children@);
        }
        let id = offset + 1;
        let mut off: u32 = id;
        let mut acc: Vec<char> = Vec::new();
        let n = self.children.len();
        proof {
            assert(kids.take(0) =~= Seq::<ElemModel>::empty());
        }
        let mut k: usize = 0;
        while k < n
            invariant
                n == self.children@.len(),
                k <= n,
                m == self.model(),
                kids == m.children,
                kids.len() == n,
                forall|i: int| 0 <= i < n ==> kids[i] == self.children@[i].model(),
                offset + count_model(m) <= u32::MAX,
                id == offset + 1,
                off as int == render_epub_children(kids.take(k as int), id as int, escape_html).0,
                acc@ == render_epub_children(kids.take(k as int), id as int, escape_html).1,
                off as int == id + count_models(kids.take(k as int)),
            decreases n - k,
        {
            proof {
                lemma_count_models_split(kids, k as int);
                assert(kids.skip(k as int)[0] == kids[k as int]);
                assert(kids.skip(k as int).drop_first() =~= kids.skip(k + 1));
                assert(count_models(kids.skip(k as int)) == count_model(kids[k as int])
                    + count_models(kids.skip(k + 1)));
            }
            let child = self.children.get(k).unwrap();
            let cr = child.render_epub(off, escape_html);
            proof {
                lemma_epub_offset(kids[k as int], off as int, escape_html);
            }
            off = cr.0;
            let ghost acc_pre = acc@;
            if k > 0 {
                append_str(&mut acc, "\n");
            }
            append_str(&mut acc, cr.1.as_str());
            proof {
                assert(kids.take(k + 1).drop_last() =~= kids.take(k as int));
                assert(kids.take(k + 1).last() == kids[k as int]);
                if k == 0 {
                    assert(acc@ =~= cr.1@);
                }
                assert(kids.take(k + 1).len() == k + 1);
                lemma_count_models_back(kids.take(k + 1));
            }
            k = k + 1;
        }
        proof {
            assert(kids.take(n as int) =~= kids);
        }
        let id_chars = u32_dec_chars(id);
        let id_string = chars_to_string(&id_chars);
        let esc_id = escape_attr_exec(id_string.as_str());
        let title_src: String = match &self.raw_title {
            Option::Some(rt) => rt.clone(),
            Option::None => escape_text_exec(self.title.as_str()),
        };
        let title_trimmed = trim_exec(title_src.as_str());
        let esc_url = escape_attr_exec(self.url.as_str());
        let has_kids = n > 0;
        let kids_indented: String = if has_kids {
            let joined = chars_to_string(&acc);
            indent(joined.as_str(), 1)
        } else {
            String::new()
        };
        let text = navpoint_text(
            esc_id.as_str(),
            title_trimmed.as_str(),
            esc_url.as_str(),
            has_kids,
            kids_indented.as_str(),
        );
        proof {
            assert(esc_id@ == esc_attr(dec_str(id as int)));
            assert(title_trimmed@ == title_for_epub(m));
            assert(esc_url@ == esc_attr(m.url));
            assert(text@ == render_epub_elem(m, offset as int, escape_html).1);
        }
        (off, text)
    }
}

/// A Table Of Contents.
///
/// It contains an ordered list of top-level [`TocElement`]s; insertion
/// applies the same level-directed policy as [`TocElement::add`] at the top
/// level.
#[derive(Debug)]
pub struct Toc {
    /// The elements composing the TOC
    pub elements: Vec<TocElement>,
}

impl Toc {
    /// The ghost model: the models of the top-level elements.
    pub open spec fn model(self) -> Seq<ElemModel> {
        models_of(self.elements@)
    }

    /// Creates a new, empty, Toc.
    pub fn new() -> (r: Toc)
        ensures
            r.model() == Seq::<ElemModel>::empty(),
    {
        let r = Toc { elements: Vec::new() };
        proof {
            assert(models_of(r.elements@) =~= Seq::<ElemModel>::empty());
        }
        r
    }

    /// Returns `true` if the toc is empty, `false` else.
    ///
    /// Note that `empty` here means that the toc has zero *or one* element,
    /// since it is still not worth displaying it in this case.
    pub fn is_empty(&self) -> (r: bool)
        ensures
            r == (self.model().len() <= 1),
    {
        proof {
            lemma_models_of(self.elements@);
        }
        self.elements.len() <= 1
    }

    /// Adds a [`TocElement`] to the Toc.
    ///
    /// This looks at the element's level and inserts it as a descendant of
    /// the last top-level element if its level is greater than that
    /// element's; otherwise it becomes a new top-level element.
    pub fn add(&mut self, element: TocElement) -> (r: &mut Toc)
        ensures
            (*r).model() == toc_insert(old(self).model(), element.model()),
            *final(self) == *final(r),
    {
        proof {
            lemma_models_of(self.elements@);
        }
        let n = self.elements.len();
        let mut descend = false;
        if n > 0 {
            if element.level > self.elements[n - 1].level {
                descend = true;
            }
        }
        if descend {
            let mut last = self.elements.pop().unwrap();
            let ghost last_model = last.model();
            last.add(element);
            self.elements.push(last);
            proof {
                let orig = models_of(old(self).elements@);
                lemma_models_of(old(self).elements@);
                lemma_models_of(self.elements@);
                assert(self.elements@.drop_last() =~= old(self).elements@.drop_last());
                lemma_models_of(self.elements@.drop_last());
                assert(models_of(self.elements@) =~= orig.update(
                    orig.len() - 1,
                    add_to_node(last_model, element.model()),
                ));
            }
        } else {
            self.elements.push(element);
            proof {
                let orig = models_of(old(self).elements@);
                lemma_models_of(old(self).elements@);
                lemma_models_of(self.elements@);
                assert(self.elements@.drop_last() =~= old(self).elements@);
                lemma_models_of(self.elements@.drop_last());
                assert(models_of(self.elements@) =~= orig.push(element.model()));
            }
        }
        self
    }
}

/// The list tag of the HTML rendering: ordered when numbered.
pub open spec fn oul(numbered: bool) -> Seq<char> {
    if numbered {
        "ol"@
    } else {
        "ul"@
    }
}

/// One list item of the HTML rendering. An element without a title renders
/// as an empty fragment, whatever children it has; one without children is a
/// single line; one with children carries a nested list, indented one level.
pub open spec fn render_elem(m: ElemModel, numbered: bool, escape: bool) -> Seq<char>
    decreases m,
{
    if m.title.len() == 0 {
        Seq::<char>::empty()
    } else if m.children.len() == 0 {
        "<li><a href=\""@ + esc_attr(m.url) + "\">"@ + enc_html(m.title, escape) + "</a></li>"@
    } else {
        let kids = render_children_join(m.children, numbered, escape);
        let block = "<"@ + oul(numbered) + ">\n"@ + indent_text(kids, 1) + "\n</"@ + oul(numbered)
            + ">"@;
        "<li>\n  <a href=\""@ + esc_attr(m.url) + "\">"@ + enc_html(m.title, escape) + "</a>\n"@
            + indent_text(block, 1) + "\n</li>"@
    }
}

/// Sibling list items joined with line feeds (an element suppressed for its
/// empty title still contributes an empty entry to the join).
pub open spec fn render_children_join(s: Seq<ElemModel>, numbered: bool, escape: bool) -> Seq<
    char,
>
    decreases s,
{
    if s.len() == 0 {
        Seq::<char>::empty()
    } else if s.len() == 1 {
        render_elem(s.last(), numbered, escape)
    } else {
        render_children_join(s.drop_last(), numbered, escape) + "\n"@ + render_elem(
            s.last(),
            numbered,
            escape,
        )
    }
}

/// What [`Toc::render`] returns: the joined items wrapped in one list tag,
/// indented two levels.
pub open spec fn toc_render_html(s: Seq<ElemModel>, numbered: bool, escape: bool) -> Seq<char> {
    indent_text(
        "<"@ + oul(numbered) + ">\n"@ + indent_text(render_children_join(s, numbered, escape), 1)
            + "\n</"@ + oul(numbered) + ">"@,
        2,
    )
}

impl TocElement {
    /// Render element as a list item.
    pub fn render(&self, numbered: bool, escape_html: bool) -> (r: String)
        ensures
            r@ == render_elem(self.model(), numbered, escape_html),
        decreases *self,
    {
        let ghost m = self.model();
        proof {
            lemma_models_of(self.children@);
        }
        if self.title.as_str().is_empty() {
            let r = String::new();
            assert(r@ =~= render_elem(m, numbered, escape_html));
            return r;
        }
        let esc_url = escape_attr_exec(self.url.as_str());
        let enc_title = encode_html(self.title.as_str(), escape_html);
        if self.children.len() == 0 {
            let text = li_leaf_text(esc_url.as_str(), enc_title.as_str());
            proof {
                assert(text@ == render_elem(m, numbered, escape_html));
            }
            return text;
        }
        let ghost kids = m.children;
        let mut acc: Vec<char> = Vec::new();
        let n = self.children.len();
        proof {
            assert(kids.take(0) =~= Seq::<ElemModel>::empty());
        }
        let mut k: usize = 0;
        while k < n
            invariant
                n == self.children@.len(),
                n > 0,
                k <= n,
                m == self.model(),
                kids == m.children,
                kids.len() == n,
                forall|i: int| 0 <= i < n ==> kids[i] == self.children@[i].model(),
                acc@ == render_children_join(kids.take(k as int), numbered, escape_html),
            decreases n - k,
        {
            let child = self.children.get(k).unwrap();
            let cr = child.render(numbered, escape_html);
            if k > 0 {
                append_str(&mut acc, "\n");
            }
            append_str(&mut acc, cr.as_str());
            proof {
                assert(kids.take(k + 1).drop_last() =~= kids.take(k as int));
                assert(kids.take(k + 1).last() == kids[k as int]);
                if k == 0 {
                    assert(acc@ =~= cr@);
                }
            }
            k = k + 1;
        }
        proof {
            assert(kids.take(n as int) =~= kids);
        }
        let tag: &str = if numbered {
            "ol"
        } else {
            "ul"
        };
        let joined = chars_to_string(&acc);
        let kids_indented = indent(joined.as_str(), 1);
        let block = list_block_text(tag, kids_indented.as_str());
        let block_indented = indent(block.as_str(), 1);
        let text = li_nested_text(esc_url.as_str(), enc_title.as_str(), block_indented.as_str());
        proof {
            assert(tag@ == oul(numbered));
            assert(text@ == render_elem(m, numbered, escape_html));
        }
        text
    }
}

impl Toc {
    /// Render the Toc in a toc.ncx compatible way, for EPUB.
    ///
    /// * `escape_html`: whether titles should be HTML-encoded or not (only
    ///   applies to titles)
    pub fn render_epub(&mut self, escape_html: bool) -> (r: String)
        requires
            count_models(old(self).model()) <= u32::MAX,
        ensures
            r@ == toc_render_epub(old(self).model(), escape_html),
            *final(self) == *old(self),
    {
        let ghost elems = self.model();
        proof {
            lemma_models_of(self.elements@);
        }
        let mut off: u32 = 0;
        let mut acc: Vec<char> = Vec::new();
        let n = self.elements.len();
        proof {
            assert(elems.take(0) =~= Seq::<ElemModel>::empty());
        }
        let mut k: usize = 0;
        while k < n
            invariant
                n == self.elements@.len(),
                k <= n,
                *self == *old(self),
                elems == self.model(),
                elems.len() == n,
                forall|i: int| 0 <= i < n ==> elems[i] == self.elements@[i].model(),
                count_models(elems) <= u32::MAX,
                off as int == render_epub_children(elems.take(k as int), 0, escape_html).0,
                acc@ == render_epub_children(elems.take(k as int), 0, escape_html).1,
                off as int == count_models(elems.take(k as int)),
            decreases n - k,
        {
            proof {
                lemma_count_models_split(elems, k as int);
                assert(elems.skip(k as int)[0] == elems[k as int]);
                assert(elems.skip(k as int).drop_first() =~= elems.skip(k + 1));
                assert(count_models(elems.skip(k as int)) == count_model(elems[k as int])
                    + count_models(elems.skip(k + 1)));
            }
            let elem = self.elements.get(k).unwrap();
            let cr = elem.render_epub(off, escape_html);
            proof {
                lemma_epub_offset(elems[k as int], off as int, escape_html);
            }
            off = cr.0;
            if k > 0 {
                append_str(&mut acc, "\n");
            }
            append_str(&mut acc, cr.1.as_str());
            proof {
                assert(elems.take(k + 1).drop_last() =~= elems.take(k as int));
                assert(elems.take(k + 1).last() == elems[k as int]);
                if k == 0 {
                    assert(acc@ =~= cr.1@);
                }
                assert(elems.take(k + 1).len() == k + 1);
                lemma_count_models_back(elems.take(k + 1));
            }
            k = k + 1;
        }
        proof {
            assert(elems.take(n as int) =~= elems);
        }
        let joined = chars_to_string(&acc);
        indent(joined.as_str(), 2)
    }

    /// Render the Toc in either `<ul>` or `<ol>` form (according to
    /// `numbered`).
    pub fn render(&mut self, numbered: bool, escape_html: bool) -> (r: String)
        ensures
            r@ == toc_render_html(old(self).model(), numbered, escape_html),
            *final(self) == *old(self),
    {
        let ghost elems = self.model();
        proof {
            lemma_models_of(self.elements@);
        }
        let mut acc: Vec<char> = Vec::new();
        let n = self.elements.len();
        proof {
            assert(elems.take(0) =~= Seq::<ElemModel>::empty());
        }
        let mut k: usize = 0;
        while k < n
            invariant
                n == self.elements@.len(),
                k <= n,
                *self == *old(self),
                elems == self.model(),
                elems.len() == n,
                forall|i: int| 0 <= i < n ==> elems[i] == self.elements@[i].model(),
                acc@ == render_children_join(elems.take(k as int), numbered, escape_html),
            decreases n - k,
        {
            let elem = self.elements.get(k).unwrap();
            let cr = elem.render(numbered, escape_html);
            if k > 0 {
                append_str(&mut acc, "\n");
            }
            append_str(&mut acc, cr.as_str());
            proof {
                assert(elems.take(k + 1).drop_last() =~= elems.take(k as int));
                assert(elems.take(k + 1).last() == elems[k as int]);
                if k == 0 {
                    assert(acc@ =~= cr@);
                }
            }
            k = k + 1;
        }
        proof {
            assert(elems.take(n as int) =~= elems);
        }
        let tag: &str = if numbered {
            "ol"
        } else {
            "ul"
        };
        let joined = chars_to_string(&acc);
        let inner_indented = indent(joined.as_str(), 1);
        let block = list_block_text(tag, inner_indented.as_str());
        let r = indent(block.as_str(), 2);
        proof {
            assert(tag@ == oul(numbered));
            assert(r@ == toc_render_html(elems, numbered, escape_html));
        }
        r
    }
}

/// The play-order ids assigned in the subtree of a node that is numbered
/// right after `offset`: the node's own id first, then the ids of its
/// children's subtrees, the counter threaded left to right exactly as
/// [`render_epub_elem`] threads it.
pub open spec fn preorder_ids(m: ElemModel, offset: int) -> Seq<int>
    decreases m,
{
    seq![offset + 1] + preorder_ids_children(m.children, offset + 1)
}

/// The forest part of [`preorder_ids`].
pub open spec fn preorder_ids_children(s: Seq<ElemModel>, offset: int) -> Seq<int>
    decreases s,
{
    if s.len() == 0 {
        Seq::empty()
    } else {
        preorder_ids_children(s.drop_last(), offset) + preorder_ids(
            s.last(),
            offset + count_models(s.drop_last()),
        )
    }
}

/// Monotonic numbering: the ids assigned in a subtree numbered after
/// `offset` are exactly `offset + 1, offset + 2, ...`, one per node, in
/// pre-order — so they are strictly increasing along the traversal.
pub proof fn lemma_preorder_ids_consecutive(m: ElemModel, offset: int)
    ensures
        preorder_ids(m, offset) == Seq::new(count_model(m), |i: int| offset + 1 + i),
    decreases m,
{
    lemma_preorder_ids_children_consecutive(m.children, offset + 1);
    assert(preorder_ids(m, offset) =~= Seq::new(count_model(m), |i: int| offset + 1 + i));
}

/// The forest part of [`lemma_preorder_ids_consecutive`].
pub proof fn lemma_preorder_ids_children_consecutive(s: Seq<ElemModel>, offset: int)
    ensures
        preorder_ids_children(s, offset) == Seq::new(count_models(s), |i: int| offset + 1 + i),
    decreases s,
{
    if s.len() == 0 {
        assert(preorder_ids_children(s, offset) =~= Seq::new(
            count_models(s),
            |i: int| offset + 1 + i,
        ));
    } else {
        lemma_preorder_ids_children_consecutive(s.drop_last(), offset);
        lemma_preorder_ids_consecutive(s.last(), offset + count_models(s.drop_last()));
        lemma_count_models_back(s);
        assert(preorder_ids_children(s, offset) =~= Seq::new(
            count_models(s),
            |i: int| offset + 1 + i,
        ));
    }
}

/// Monotonic numbering over a whole table of contents: rendering from
/// counter zero, the assigned ids are exactly `1 ..= N` with `N` the total
/// node count, in pre-order.
pub proof fn lemma_play_order_sequential(s: Seq<ElemModel>)
    ensures
        preorder_ids_children(s, 0) == Seq::new(count_models(s), |i: int| i + 1),
{
    lemma_preorder_ids_children_consecutive(s, 0);
}

/// A tree whose levels step by exactly one along every edge.
pub open spec fn stepwise_levels(m: ElemModel) -> bool
    decreases m,
{
    stepwise_children(m.children, m.level)
}

/// The forest part of [`stepwise_levels`]: every root sits exactly one level
/// below `parent_level`, and its own subtree steps by one as well.
pub open spec fn stepwise_children(s: Seq<ElemModel>, parent_level: int) -> bool
    decreases s,
{
    if s.len() == 0 {
        true
    } else {
        s[0].level == parent_level + 1 && stepwise_levels(s[0]) && stepwise_children(
            s.drop_first(),
            parent_level,
        )
    }
}

/// Every node of the tree moved down by `d` levels, nothing else changed.
pub open spec fn shift_levels(m: ElemModel, d: int) -> ElemModel
    decreases m,
{
    ElemModel { level: m.level + d, children: shift_children(m.children, d), ..m }
}

/// The forest part of [`shift_levels`].
pub open spec fn shift_children(s: Seq<ElemModel>, d: int) -> Seq<ElemModel>
    decreases s,
{
    if s.len() == 0 {
        s
    } else {
        seq![shift_levels(s[0], d)] + shift_children(s.drop_first(), d)
    }
}

pub proof fn lemma_shift_children(s: Seq<ElemModel>, d: int)
    ensures
        shift_children(s, d).len() == s.len(),
        forall|i: int| 0 <= i < s.len() ==> shift_children(s, d)[i] == shift_levels(s[i], d),
    decreases s,
{
    if s.len() > 0 {
        lemma_shift_children(s.drop_first(), d);
    }
}

/// On a tree whose levels step by one along every edge, renormalizing to a
/// level `d >= 1` above the root's own level is a uniform shift: every node
/// moves by the same `d`.
pub proof fn lemma_level_up_shifts(m: ElemModel, d: int)
    requires
        stepwise_levels(m),
        d >= 1,
    ensures
        level_up_model(m, m.level + d) == shift_levels(m, d),
    decreases m,
{
    lemma_level_up_children_shift(m.children, m.level, d);
}

/// The forest part of [`lemma_level_up_shifts`].
pub proof fn lemma_level_up_children_shift(s: Seq<ElemModel>, parent_level: int, d: int)
    requires
        stepwise_children(s, parent_level),
        d >= 1,
    ensures
        level_up_children(s, parent_level + d) == shift_children(s, d),
    decreases s,
{
    if s.len() > 0 {
        lemma_level_up_shifts(s[0], d);
        lemma_level_up_children_shift(s.drop_first(), parent_level, d);
        assert(level_up_children(s, parent_level + d) =~= shift_children(s, d));
    }
}

/// Level cascade on explicit attachment: a child whose level exceeds the
/// parent's is attached unchanged; otherwise — provided its subtree steps by
/// one along every edge — it is attached with every node of its subtree
/// shifted by the same delta `parent.level + 1 - child.level`, so the child
/// itself lands at `parent.level + 1`.
pub proof fn lemma_child_level_cascade(p: ElemModel, c: ElemModel)
    requires
        c.level <= p.level ==> stepwise_levels(c),
    ensures
        c.level > p.level ==> child_model(p, c) == (ElemModel {
            children: p.children.push(c),
            ..p
        }),
        c.level <= p.level ==> child_model(p, c) == (ElemModel {
            children: p.children.push(shift_levels(c, p.level + 1 - c.level)),
            ..p
        }),
{
    if c.level <= p.level {
        lemma_level_up_shifts(c, p.level + 1 - c.level);
    }
}

/// Empty-title suppression: an element without a title renders as an empty
/// fragment in HTML mode, whatever children it has, while the same element
/// still renders a non-empty navigation point in EPUB mode.
pub proof fn lemma_empty_title_suppressed(m: ElemModel, numbered: bool, escape: bool, offset: int)
    requires
        m.title.len() == 0,
    ensures
        render_elem(m, numbered, escape) == Seq::<char>::empty(),
        render_epub_elem(m, offset, escape).1.len() > 0,
{
    reveal_strlit("<navPoint playOrder=\"");
}

/// The escape flag never touches EPUB-navigation output: the titles there
/// are escaped unconditionally (unless a raw title overrides them).
pub proof fn lemma_epub_escape_irrelevant(m: ElemModel, offset: int, e1: bool, e2: bool)
    ensures
        render_epub_elem(m, offset, e1) == render_epub_elem(m, offset, e2),
    decreases m,
{
    lemma_epub_children_escape_irrelevant(m.children, offset + 1, e1, e2);
}

/// The forest part of [`lemma_epub_escape_irrelevant`].
pub proof fn lemma_epub_children_escape_irrelevant(s: Seq<ElemModel>, offset: int, e1: bool, e2: bool)
    ensures
        render_epub_children(s, offset, e1) == render_epub_children(s, offset, e2),
    decreases s,
{
    if s.len() > 0 {
        lemma_epub_children_escape_irrelevant(s.drop_last(), offset, e1, e2);
        lemma_epub_escape_irrelevant(
            s.last(),
            render_epub_children(s.drop_last(), offset, e1).0,
            e1,
            e2,
        );
    }
}

/// Raw-title override: when a raw title is set, the EPUB-navigation output
/// embeds it verbatim — the plain title is ignored entirely, and so is the
/// escape flag.
pub proof fn lemma_raw_title_override(
    m: ElemModel,
    other_title: Seq<char>,
    offset: int,
    e1: bool,
    e2: bool,
)
    requires
        m.raw_title is Some,
    ensures
        render_epub_elem(m, offset, e1) == render_epub_elem(
            (ElemModel { title: other_title, ..m }),
            offset,
            e2,
        ),
{
    let m2 = ElemModel { title: other_title, ..m };
    lemma_epub_children_escape_irrelevant(m.children, offset + 1, e1, e2);
    assert(title_for_epub(m) == title_for_epub(m2));
}

/// Inserting one element grows the node count by that element's node count
/// (by one, for a leaf): no node is lost or duplicated.
pub proof fn lemma_add_to_node_count(n: ElemModel, e: ElemModel)
    ensures
        count_model(add_to_node(n, e)) == count_model(n) + count_model(e),
    decreases n,
{
    if n.children.len() > 0 && e.level > n.children.last().level {
        lemma_add_to_node_count(n.children.last(), e);
        lemma_count_models_back(n.children);
        let up = n.children.update(n.children.len() - 1, add_to_node(n.children.last(), e));
        assert(up.drop_last() =~= n.children.drop_last());
        assert(up.last() == add_to_node(n.children.last(), e));
        lemma_count_models_back(up);
    } else {
        let up = n.children.push(e);
        assert(up.drop_last() =~= n.children);
        lemma_count_models_back(up);
    }
}

/// The top-level form of [`lemma_add_to_node_count`].
pub proof fn lemma_toc_insert_count(s: Seq<ElemModel>, e: ElemModel)
    ensures
        count_models(toc_insert(s, e)) == count_models(s) + count_model(e),
{
    if s.len() > 0 && e.level > s.last().level {
        lemma_add_to_node_count(s.last(), e);
        lemma_count_models_back(s);
        let up = s.update(s.len() - 1, add_to_node(s.last(), e));
        assert(up.drop_last() =~= s.drop_last());
        assert(up.last() == add_to_node(s.last(), e));
        lemma_count_models_back(up);
    } else {
        let up = s.push(e);
        assert(up.drop_last() =~= s);
        lemma_count_models_back(up);
    }
}

impl Default for Toc {
    /// An empty table of contents.
    fn default() -> (r: Toc)
        ensures
            r.model() == Seq::<ElemModel>::empty(),
    {
        Toc::new()
    }
}

} // verus!
