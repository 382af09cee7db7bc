use epub_builder::Toc;
use epub_builder::TocElement;

#[test]
fn toc_simple() {
    let mut toc = Toc::new();
    toc.add(TocElement::new("#1", "0.0.1").level(3));
    toc.add(TocElement::new("#2", "1").level(1));
    toc.add(TocElement::new("#3", "1.0.1").level(3));
    toc.add(TocElement::new("#4", "1.1").level(2));
    toc.add(TocElement::new("#5", "2"));
    let actual = toc.render(false, true);
    let expected = "    <ul>
      <li><a href=\"#1\">0.0.1</a></li>
      <li>
        <a href=\"#2\">1</a>
        <ul>
          <li><a href=\"#3\">1.0.1</a></li>
          <li><a href=\"#4\">1.1</a></li>
        </ul>
      </li>
      <li><a href=\"#5\">2</a></li>
    </ul>";
    assert_eq!(&actual, expected);
}

#[test]
fn toc_epub_simple() {
    let mut toc = Toc::new();
    toc.add(TocElement::new("#1", "1"));
    toc.add(TocElement::new("#2", "2"));
    let actual = toc.render_epub(true);
    let expected = "    <navPoint playOrder=\"1\" id=\"navPoint-1\">
      <navLabel>
       <text>1</text>
      </navLabel>
      <content src=\"#1\"/>
    </navPoint>
    <navPoint playOrder=\"2\" id=\"navPoint-2\">
      <navLabel>
       <text>2</text>
      </navLabel>
      <content src=\"#2\"/>
    </navPoint>";
    assert_eq!(&actual, expected);
}

#[test]
fn toc_epub_simple_sublevels() {
    let mut toc = Toc::new();
    toc.add(TocElement::new("#1", "1"));
    toc.add(TocElement::new("#1.1", "1.1").level(2));
    toc.add(TocElement::new("#2", "2"));
    toc.add(TocElement::new("#2.1", "2.1").level(2));
    let actual = toc.render_epub(true);
    let expected = "    <navPoint playOrder=\"1\" id=\"navPoint-1\">
      <navLabel>
       <text>1</text>
      </navLabel>
      <content src=\"#1\"/>
      <navPoint playOrder=\"2\" id=\"navPoint-2\">
        <navLabel>
         <text>1.1</text>
        </navLabel>
        <content src=\"#1.1\"/>
      </navPoint>
    </navPoint>
    <navPoint playOrder=\"3\" id=\"navPoint-3\">
      <navLabel>
       <text>2</text>
      </navLabel>
      <content src=\"#2\"/>
      <navPoint playOrder=\"4\" id=\"navPoint-4\">
        <navLabel>
         <text>2.1</text>
        </navLabel>
        <content src=\"#2.1\"/>
      </navPoint>
    </navPoint>";
    assert_eq!(&actual, expected);
}

#[test]
fn toc_epub_broken_sublevels() {
    let mut toc = Toc::new();
    toc.add(TocElement::new("#1.1", "1.1").level(2));
    toc.add(TocElement::new("#2", "2"));
    toc.add(TocElement::new("#2.1", "2.1").level(2));
    let actual = toc.render_epub(true);
    let expected = "    <navPoint playOrder=\"1\" id=\"navPoint-1\">
      <navLabel>
       <text>1.1</text>
      </navLabel>
      <content src=\"#1.1\"/>
    </navPoint>
    <navPoint playOrder=\"2\" id=\"navPoint-2\">
      <navLabel>
       <text>2</text>
      </navLabel>
      <content src=\"#2\"/>
      <navPoint playOrder=\"3\" id=\"navPoint-3\">
        <navLabel>
         <text>2.1</text>
        </navLabel>
        <content src=\"#2.1\"/>
      </navPoint>
    </navPoint>";
    assert_eq!(&actual, expected);
}

#[test]
fn toc_epub_title_escaped() {
    let mut toc = Toc::new();
    toc.add(TocElement::new("#1", "D&D"));
    let actual = toc.render_epub(true);
    let expected = "    <navPoint playOrder=\"1\" id=\"navPoint-1\">
      <navLabel>
       <text>D&amp;D</text>
      </navLabel>
      <content src=\"#1\"/>
    </navPoint>";
    assert_eq!(&actual, expected);
}

#[test]
fn toc_epub_title_not_escaped() {
    let mut toc = Toc::new();
    toc.add(TocElement::new("#1", "<em>D&amp;D<em>").raw_title("D&amp;D"));
    let actual = toc.render_epub(false);
    let expected = "    <navPoint playOrder=\"1\" id=\"navPoint-1\">
      <navLabel>
       <text>D&amp;D</text>
      </navLabel>
      <content src=\"#1\"/>
    </navPoint>";
    assert_eq!(&actual, expected);
}

// The worked insertion example: appending levels 3, 1, 3, 2, 1 produces the
// exact tree [A, B(children = [C, D]), E], not a "corrected" hierarchy.
#[test]
fn insertion_placement_3_1_3_2_1() {
    let mut toc = Toc::new();
    toc.add(TocElement::new("#a", "A").level(3));
    toc.add(TocElement::new("#b", "B").level(1));
    toc.add(TocElement::new("#c", "C").level(3));
    toc.add(TocElement::new("#d", "D").level(2));
    toc.add(TocElement::new("#e", "E").level(1));
    assert_eq!(toc.elements.len(), 3);
    assert_eq!(toc.elements[0].title, "A");
    assert_eq!(toc.elements[0].children.len(), 0);
    assert_eq!(toc.elements[1].title, "B");
    assert_eq!(toc.elements[1].children.len(), 2);
    assert_eq!(toc.elements[1].children[0].title, "C");
    assert_eq!(toc.elements[1].children[0].children.len(), 0);
    assert_eq!(toc.elements[1].children[1].title, "D");
    assert_eq!(toc.elements[1].children[1].children.len(), 0);
    assert_eq!(toc.elements[2].title, "E");
    assert_eq!(toc.elements[2].children.len(), 0);
}

// Two default-level entries render as a flat unordered list: no nesting and
// no numbering anywhere in the HTML form.
#[test]
fn two_entries_flat_unordered() {
    let mut toc = Toc::new();
    toc.add(TocElement::new("#1", "1"));
    toc.add(TocElement::new("#2", "2"));
    let actual = toc.render(false, true);
    let expected = "    <ul>
      <li><a href=\"#1\">1</a></li>
      <li><a href=\"#2\">2</a></li>
    </ul>";
    assert_eq!(&actual, expected);
}

#[test]
fn toc_is_empty_semantics() {
    let mut toc = Toc::new();
    assert!(toc.is_empty());
    toc.add(TocElement::new("#1", "1"));
    assert!(toc.is_empty());
    // children do not make a single-entry toc non-empty
    toc.add(TocElement::new("#1.1", "1.1").level(2));
    assert!(toc.is_empty());
    toc.add(TocElement::new("#2", "2"));
    assert!(!toc.is_empty());
}

// An element with an empty title disappears from the HTML rendering even
// when it has children, but still gets its navigation point in EPUB form.
#[test]
fn empty_title_suppressed_in_html_only() {
    let mut toc = Toc::new();
    toc.add(TocElement::new("#1", ""));
    toc.add(TocElement::new("#1.1", "1.1").level(2));
    toc.add(TocElement::new("#2", "2"));
    let html = toc.render(false, true);
    let expected_html = "    <ul>

      <li><a href=\"#2\">2</a></li>
    </ul>";
    assert_eq!(&html, expected_html);
    let epub = toc.render_epub(true);
    assert!(epub.contains("<content src=\"#1\"/>"));
    assert!(epub.contains("<content src=\"#1.1\"/>"));
    assert!(epub.contains("playOrder=\"3\""));
}

// The explicit child operation cascades levels: a child at or below the
// parent's level lands at parent.level + 1, and its own subtree shifts by
// the same amount.
#[test]
fn child_level_cascade() {
    let elem = TocElement::new("foo.xhtml", "Foo").child(
        TocElement::new("bar.xhtml", "Bar").level(42),
    );
    assert_eq!(elem.level, 1);
    assert_eq!(elem.children[0].level, 42);
    let parent = TocElement::new("p.xhtml", "P").level(4);
    let child = TocElement::new("c.xhtml", "C")
        .level(2)
        .child(TocElement::new("g.xhtml", "G"));
    // the grandchild was forced to level 3 by the inner child() call
    let attached = parent.child(child);
    assert_eq!(attached.children[0].level, 5);
    assert_eq!(attached.children[0].children[0].level, 6);
}

#[test]
fn toc_html_numbered_uses_ol() {
    let mut toc = Toc::new();
    toc.add(TocElement::new("#1", "1"));
    toc.add(TocElement::new("#1.1", "1.1").level(2));
    let actual = toc.render(true, true);
    let expected = "    <ol>
      <li>
        <a href=\"#1\">1</a>
        <ol>
          <li><a href=\"#1.1\">1.1</a></li>
        </ol>
      </li>
    </ol>";
    assert_eq!(&actual, expected);
}

#[test]
fn toc_html_title_escaping_flag() {
    let mut toc = Toc::new();
    toc.add(TocElement::new("#1", "a<b>&c"));
    let escaped = toc.render(false, true);
    assert!(escaped.contains("<li><a href=\"#1\">a&lt;b&gt;&amp;c</a></li>"));
    let unescaped = toc.render(false, false);
    assert!(unescaped.contains("<li><a href=\"#1\">a<b>&c</a></li>"));
}

// The href is always attribute-escaped, independently of the escape flag.
#[test]
fn toc_href_always_escaped() {
    let mut toc = Toc::new();
    toc.add(TocElement::new("x\"y.xhtml", "T"));
    let html = toc.render(false, false);
    assert!(html.contains("<a href=\"x&quot;y.xhtml\">T</a>"));
    let epub = toc.render_epub(false);
    assert!(epub.contains("<content src=\"x&quot;y.xhtml\"/>"));
}

#[test]
fn empty_toc_renders_empty_wrapper() {
    let mut toc = Toc::new();
    let html = toc.render(false, true);
    assert_eq!(&html, "    <ul>

    </ul>");
    let epub = toc.render_epub(true);
    assert_eq!(&epub, "");
}
