use epub_builder::encode_html;
use epub_builder::indent;

#[test]
#[allow(clippy::disallowed_names)]
fn test_indent() {
    let foo = "Some string with only one line";
    assert_eq!(indent(foo, 3), "      Some string with only one line");

    let bar = "1. A
  1.1. B
  1.2. C

2. D

3. E

4. F
  4.1 G
    4.1.1 H
  4.2 I";
    assert_eq!(
        indent(bar, 1),
        "  1. A
    1.1. B
    1.2. C

  2. D

  3. E

  4. F
    4.1 G
      4.1.1 H
    4.2 I"
    );
}

#[test]
fn indent_drops_trailing_newline_and_carriage_return() {
    assert_eq!(indent("a\nb\n", 1), "  a\n  b");
    assert_eq!(indent("a\r\nb", 1), "  a\n  b");
    assert_eq!(indent("", 2), "");
}

#[test]
fn encode_html_escapes_when_asked() {
    assert_eq!(encode_html("a > b && a < c", true), "a &gt; b &amp;&amp; a &lt; c");
    assert_eq!(encode_html("a > b && a < c", false), "a > b && a < c");
    assert_eq!(encode_html("", true), "");
}
