//! HTML-like tag names.

use vstd::prelude::*;
use crate::text::{all_ascii, ascii_lower_seq, chars_eq_str, chars_of, lowercase, to_lowercase};

verus! {

/// A tag of the document structure, content, lists, tables, forms, media and
/// semantic sections.
#[derive(Debug, Clone, Copy, PartialEq, Eq, Structural)]
pub enum Tag {
    Html,
    Head,
    Body,
    Title,
    Meta,
    Link,
    Script,
    Style,
    Div,
    P,
    Span,
    H1,
    H2,
    H3,
    H4,
    H5,
    H6,
    Ul,
    Ol,
    Li,
    Table,
    Thead,
    Tbody,
    Tr,
    Th,
    Td,
    Form,
    Input,
    Textarea,
    Select,
    Option,
    Button,
    Label,
    A,
    Img,
    Video,
    Audio,
    Header,
    Footer,
    Nav,
    Main,
    Article,
    Section,
    Aside,
    Br,
    Hr,
    Code,
    Pre,
    Blockquote,
    Em,
    Strong,
    Small,
    Mark,
    Time,
}

/// The lower-case name of each tag.
pub open spec fn tag_name(t: Tag) -> Seq<char> {
    match t {
        Tag::Html => seq!['h', 't', 'm', 'l'],
        Tag::Head => seq!['h', 'e', 'a', 'd'],
        Tag::Body => seq!['b', 'o', 'd', 'y'],
        Tag::Title => seq!['t', 'i', 't', 'l', 'e'],
        Tag::Meta => seq!['m', 'e', 't', 'a'],
        Tag::Link => seq!['l', 'i', 'n', 'k'],
        Tag::Script => seq!['s', 'c', 'r', 'i', 'p', 't'],
        Tag::Style => seq!['s', 't', 'y', 'l', 'e'],
        Tag::Div => seq!['d', 'i', 'v'],
        Tag::P => seq!['p'],
        Tag::Span => seq!['s', 'p', 'a', 'n'],
        Tag::H1 => seq!['h', '1'],
        Tag::H2 => seq!['h', '2'],
        Tag::H3 => seq!['h', '3'],
        Tag::H4 => seq!['h', '4'],
        Tag::H5 => seq!['h', '5'],
        Tag::H6 => seq!['h', '6'],
        Tag::Ul => seq!['u', 'l'],
        Tag::Ol => seq!['o', 'l'],
        Tag::Li => seq!['l', 'i'],
        Tag::Table => seq!['t', 'a', 'b', 'l', 'e'],
        Tag::Thead => seq!['t', 'h', 'e', 'a', 'd'],
        Tag::Tbody => seq!['t', 'b', 'o', 'd', 'y'],
        Tag::Tr => seq!['t', 'r'],
        Tag::Th => seq!['t', 'h'],
        Tag::Td => seq!['t', 'd'],
        Tag::Form => seq!['f', 'o', 'r', 'm'],
        Tag::Input => seq!['i', 'n', 'p', 'u', 't'],
        Tag::Textarea => seq!['t', 'e', 'x', 't', 'a', 'r', 'e', 'a'],
        Tag::Select => seq!['s', 'e', 'l', 'e', 'c', 't'],
        Tag::Option => seq!['o', 'p', 't', 'i', 'o', 'n'],
        Tag::Button => seq!['b', 'u', 't', 't', 'o', 'n'],
        Tag::Label => seq!['l', 'a', 'b', 'e', 'l'],
        Tag::A => seq!['a'],
        Tag::Img => seq!['i', 'm', 'g'],
        Tag::Video => seq!['v', 'i', 'd', 'e', 'o'],
        Tag::Audio => seq!['a', 'u', 'd', 'i', 'o'],
        Tag::Header => seq!['h', 'e', 'a', 'd', 'e', 'r'],
        Tag::Footer => seq!['f', 'o', 'o', 't', 'e', 'r'],
        Tag::Nav => seq!['n', 'a', 'v'],
        Tag::Main => seq!['m', 'a', 'i', 'n'],
        Tag::Article => seq!['a', 'r', 't', 'i', 'c', 'l', 'e'],
        Tag::Section => seq!['s', 'e', 'c', 't', 'i', 'o', 'n'],
        Tag::Aside => seq!['a', 's', 'i', 'd', 'e'],
        Tag::Br => seq!['b', 'r'],
        Tag::Hr => seq!['h', 'r'],
        Tag::Code => seq!['c', 'o', 'd', 'e'],
        Tag::Pre => seq!['p', 'r', 'e'],
        Tag::Blockquote => seq!['b', 'l', 'o', 'c', 'k', 'q', 'u', 'o', 't', 'e'],
        Tag::Em => seq!['e', 'm'],
        Tag::Strong => seq!['s', 't', 'r', 'o', 'n', 'g'],
        Tag::Small => seq!['s', 'm', 'a', 'l', 'l'],
        Tag::Mark => seq!['m', 'a', 'r', 'k'],
        Tag::Time => seq!['t', 'i', 'm', 'e'],
    }
}

/// The tag a lower-case name stands for; unknown names give `Div`.
pub open spec fn tag_from_lower(s: Seq<char>) -> Tag {
    if s == seq!['h', 't', 'm', 'l'] {
        Tag::Html
    } else if s == seq!['h', 'e', 'a', 'd'] {
        Tag::Head
    } else if s == seq!['b', 'o', 'd', 'y'] {
        Tag::Body
    } else if s == seq!['t', 'i', 't', 'l', 'e'] {
        Tag::Title
    } else if s == seq!['m', 'e', 't', 'a'] {
        Tag::Meta
    } else if s == seq!['l', 'i', 'n', 'k'] {
        Tag::Link
    } else if s == seq!['s', 'c', 'r', 'i', 'p', 't'] {
        Tag::Script
    } else if s == seq!['s', 't', 'y', 'l', 'e'] {
        Tag::Style
    } else if s == seq!['d', 'i', 'v'] {
        Tag::Div
    } else if s == seq!['p'] {
        Tag::P
    } else if s == seq!['s', 'p', 'a', 'n'] {
        Tag::Span
    } else if s == seq!['h', '1'] {
        Tag::H1
    } else if s == seq!['h', '2'] {
        Tag::H2
    } else if s == seq!['h', '3'] {
        Tag::H3
    } else if s == seq!['h', '4'] {
        Tag::H4
    } else if s == seq!['h', '5'] {
        Tag::H5
    } else if s == seq!['h', '6'] {
        Tag::H6
    } else if s == seq!['u', 'l'] {
        Tag::Ul
    } else if s == seq!['o', 'l'] {
        Tag::Ol
    } else if s == seq!['l', 'i'] {
        Tag::Li
    } else if s == seq!['t', 'a', 'b', 'l', 'e'] {
        Tag::Table
    } else if s == seq!['t', 'h', 'e', 'a', 'd'] {
        Tag::Thead
    } else if s == seq!['t', 'b', 'o', 'd', 'y'] {
        Tag::Tbody
    } else if s == seq!['t', 'r'] {
        Tag::Tr
    } else if s == seq!['t', 'h'] {
        Tag::Th
    } else if s == seq!['t', 'd'] {
        Tag::Td
    } else if s == seq!['f', 'o', 'r', 'm'] {
        Tag::Form
    } else if s == seq!['i', 'n', 'p', 'u', 't'] {
        Tag::Input
    } else if s == seq!['t', 'e', 'x', 't', 'a', 'r', 'e', 'a'] {
        Tag::Textarea
    } else if s == seq!['s', 'e', 'l', 'e', 'c', 't'] {
        Tag::Select
    } else if s == seq!['o', 'p', 't', 'i', 'o', 'n'] {
        Tag::Option
    } else if s == seq!['b', 'u', 't', 't', 'o', 'n'] {
        Tag::Button
    } else if s == seq!['l', 'a', 'b', 'e', 'l'] {
        Tag::Label
    } else if s == seq!['a'] {
        Tag::A
    } else if s == seq!['i', 'm', 'g'] {
        Tag::Img
    } else if s == seq!['v', 'i', 'd', 'e', 'o'] {
        Tag::Video
    } else if s == seq!['a', 'u', 'd', 'i', 'o'] {
        Tag::Audio
    } else if s == seq!['h', 'e', 'a', 'd', 'e', 'r'] {
        Tag::Header
    } else if s == seq!['f', 'o', 'o', 't', 'e', 'r'] {
        Tag::Footer
    } else if s == seq!['n', 'a', 'v'] {
        Tag::Nav
    } else if s == seq!['m', 'a', 'i', 'n'] {
        Tag::Main
    } else if s == seq!['a', 'r', 't', 'i', 'c', 'l', 'e'] {
        Tag::Article
    } else if s == seq!['s', 'e', 'c', 't', 'i', 'o', 'n'] {
        Tag::Section
    } else if s == seq!['a', 's', 'i', 'd', 'e'] {
        Tag::Aside
    } else if s == seq!['b', 'r'] {
        Tag::Br
    } else if s == seq!['h', 'r'] {
        Tag::Hr
    } else if s == seq!['c', 'o', 'd', 'e'] {
        Tag::Code
    } else if s == seq!['p', 'r', 'e'] {
        Tag::Pre
    } else if s == seq!['b', 'l', 'o', 'c', 'k', 'q', 'u', 'o', 't', 'e'] {
        Tag::Blockquote
    } else if s == seq!['e', 'm'] {
        Tag::Em
    } else if s == seq!['s', 't', 'r', 'o', 'n', 'g'] {
        Tag::Strong
    } else if s == seq!['s', 'm', 'a', 'l', 'l'] {
        Tag::Small
    } else if s == seq!['m', 'a', 'r', 'k'] {
        Tag::Mark
    } else if s == seq!['t', 'i', 'm', 'e'] {
        Tag::Time
    } else {
        Tag::Div
    }
}

/// The tag that lower-case text names.
fn tag_from_lower_exec(s: &[char]) -> (t: Tag)
    ensures
        t == tag_from_lower(s@),
{
    proof {
        reveal_strlit("html");
        assert("html"@ =~= seq!['h', 't', 'm', 'l']);
        reveal_strlit("head");
        assert("head"@ =~= seq!['h', 'e', 'a', 'd']);
        reveal_strlit("body");
        assert("body"@ =~= seq!['b', 'o', 'd', 'y']);
        reveal_strlit("title");
        assert("title"@ =~= seq!['t', 'i', 't', 'l', 'e']);
        reveal_strlit("meta");
        assert("meta"@ =~= seq!['m', 'e', 't', 'a']);
        reveal_strlit("link");
        assert("link"@ =~= seq!['l', 'i', 'n', 'k']);
        reveal_strlit("script");
        assert("script"@ =~= seq!['s', 'c', 'r', 'i', 'p', 't']);
        reveal_strlit("style");
        assert("style"@ =~= seq!['s', 't', 'y', 'l', 'e']);
        reveal_strlit("div");
        assert("div"@ =~= seq!['d', 'i', 'v']);
        reveal_strlit("p");
        assert("p"@ =~= seq!['p']);
        reveal_strlit("span");
        assert("span"@ =~= seq!['s', 'p', 'a', 'n']);
        reveal_strlit("h1");
        assert("h1"@ =~= seq!['h', '1']);
        reveal_strlit("h2");
        assert("h2"@ =~= seq!['h', '2']);
        reveal_strlit("h3");
        assert("h3"@ =~= seq!['h', '3']);
        reveal_strlit("h4");
        assert("h4"@ =~= seq!['h', '4']);
        reveal_strlit("h5");
        assert("h5"@ =~= seq!['h', '5']);
        reveal_strlit("h6");
        assert("h6"@ =~= seq!['h', '6']);
        reveal_strlit("ul");
        assert("ul"@ =~= seq!['u', 'l']);
        reveal_strlit("ol");
        assert("ol"@ =~= seq!['o', 'l']);
        reveal_strlit("li");
        assert("li"@ =~= seq!['l', 'i']);
        reveal_strlit("table");
        assert("table"@ =~= seq!['t', 'a', 'b', 'l', 'e']);
        reveal_strlit("thead");
        assert("thead"@ =~= seq!['t', 'h', 'e', 'a', 'd']);
        reveal_strlit("tbody");
        assert("tbody"@ =~= seq!['t', 'b', 'o', 'd', 'y']);
        reveal_strlit("tr");
        assert("tr"@ =~= seq!['t', 'r']);
        reveal_strlit("th");
        assert("th"@ =~= seq!['t', 'h']);
        reveal_strlit("td");
        assert("td"@ =~= seq!['t', 'd']);
        reveal_strlit("form");
        assert("form"@ =~= seq!['f', 'o', 'r', 'm']);
        reveal_strlit("input");
        assert("input"@ =~= seq!['i', 'n', 'p', 'u', 't']);
        reveal_strlit("textarea");
        assert("textarea"@ =~= seq!['t', 'e', 'x', 't', 'a', 'r', 'e', 'a']);
        reveal_strlit("select");
        assert("select"@ =~= seq!['s', 'e', 'l', 'e', 'c', 't']);
        reveal_strlit("option");
        assert("option"@ =~= seq!['o', 'p', 't', 'i', 'o', 'n']);
        reveal_strlit("button");
        assert("button"@ =~= seq!['b', 'u', 't', 't', 'o', 'n']);
        reveal_strlit("label");
        assert("label"@ =~= seq!['l', 'a', 'b', 'e', 'l']);
        reveal_strlit("a");
        assert("a"@ =~= seq!['a']);
        reveal_strlit("img");
        assert("img"@ =~= seq!['i', 'm', 'g']);
        reveal_strlit("video");
        assert("video"@ =~= seq!['v', 'i', 'd', 'e', 'o']);
        reveal_strlit("audio");
        assert("audio"@ =~= seq!['a', 'u', 'd', 'i', 'o']);
        reveal_strlit("header");
        assert("header"@ =~= seq!['h', 'e', 'a', 'd', 'e', 'r']);
        reveal_strlit("footer");
        assert("footer"@ =~= seq!['f', 'o', 'o', 't', 'e', 'r']);
        reveal_strlit("nav");
        assert("nav"@ =~= seq!['n', 'a', 'v']);
        reveal_strlit("main");
        assert("main"@ =~= seq!['m', 'a', 'i', 'n']);
        reveal_strlit("article");
        assert("article"@ =~= seq!['a', 'r', 't', 'i', 'c', 'l', 'e']);
        reveal_strlit("section");
        assert("section"@ =~= seq!['s', 'e', 'c', 't', 'i', 'o', 'n']);
        reveal_strlit("aside");
        assert("aside"@ =~= seq!['a', 's', 'i', 'd', 'e']);
        reveal_strlit("br");
        assert("br"@ =~= seq!['b', 'r']);
        reveal_strlit("hr");
        assert("hr"@ =~= seq!['h', 'r']);
        reveal_strlit("code");
        assert("code"@ =~= seq!['c', 'o', 'd', 'e']);
        reveal_strlit("pre");
        assert("pre"@ =~= seq!['p', 'r', 'e']);
        reveal_strlit("blockquote");
        assert("blockquote"@ =~= seq!['b', 'l', 'o', 'c', 'k', 'q', 'u', 'o', 't', 'e']);
        reveal_strlit("em");
        assert("em"@ =~= seq!['e', 'm']);
        reveal_strlit("strong");
        assert("strong"@ =~= seq!['s', 't', 'r', 'o', 'n', 'g']);
        reveal_strlit("small");
        assert("small"@ =~= seq!['s', 'm', 'a', 'l', 'l']);
        reveal_strlit("mark");
        assert("mark"@ =~= seq!['m', 'a', 'r', 'k']);
        reveal_strlit("time");
        assert("time"@ =~= seq!['t', 'i', 'm', 'e']);
    }
    if chars_eq_str(s, "html") {
        return Tag::Html;
    }
    if chars_eq_str(s, "head") {
        return Tag::Head;
    }
    if chars_eq_str(s, "body") {
        return Tag::Body;
    }
    if chars_eq_str(s, "title") {
        return Tag::Title;
    }
    if chars_eq_str(s, "meta") {
        return Tag::Meta;
    }
    if chars_eq_str(s, "link") {
        return Tag::Link;
    }
    if chars_eq_str(s, "script") {
        return Tag::Script;
    }
    if chars_eq_str(s, "style") {
        return Tag::Style;
    }
    if chars_eq_str(s, "div") {
        return Tag::Div;
    }
    if chars_eq_str(s, "p") {
        return Tag::P;
    }
    if chars_eq_str(s, "span") {
        return Tag::Span;
    }
    if chars_eq_str(s, "h1") {
        return Tag::H1;
    }
    if chars_eq_str(s, "h2") {
        return Tag::H2;
    }
    if chars_eq_str(s, "h3") {
        return Tag::H3;
    }
    if chars_eq_str(s, "h4") {
        return Tag::H4;
    }
    if chars_eq_str(s, "h5") {
        return Tag::H5;
    }
    if chars_eq_str(s, "h6") {
        return Tag::H6;
    }
    if chars_eq_str(s, "ul") {
        return Tag::Ul;
    }
    if chars_eq_str(s, "ol") {
        return Tag::Ol;
    }
    if chars_eq_str(s, "li") {
        return Tag::Li;
    }
    if chars_eq_str(s, "table") {
        return Tag::Table;
    }
    if chars_eq_str(s, "thead") {
        return Tag::Thead;
    }
    if chars_eq_str(s, "tbody") {
        return Tag::Tbody;
    }
    if chars_eq_str(s, "tr") {
        return Tag::Tr;
    }
    if chars_eq_str(s, "th") {
        return Tag::Th;
    }
    if chars_eq_str(s, "td") {
        return Tag::Td;
    }
    if chars_eq_str(s, "form") {
        return Tag::Form;
    }
    if chars_eq_str(s, "input") {
        return Tag::Input;
    }
    if chars_eq_str(s, "textarea") {
        return Tag::Textarea;
    }
    if chars_eq_str(s, "select") {
        return Tag::Select;
    }
    if chars_eq_str(s, "option") {
        return Tag::Option;
    }
    if chars_eq_str(s, "button") {
        return Tag::Button;
    }
    if chars_eq_str(s, "label") {
        return Tag::Label;
    }
    if chars_eq_str(s, "a") {
        return Tag::A;
    }
    if chars_eq_str(s, "img") {
        return Tag::Img;
    }
    if chars_eq_str(s, "video") {
        return Tag::Video;
    }
    if chars_eq_str(s, "audio") {
        return Tag::Audio;
    }
    if chars_eq_str(s, "header") {
        return Tag::Header;
    }
    if chars_eq_str(s, "footer") {
        return Tag::Footer;
    }
    if chars_eq_str(s, "nav") {
        return Tag::Nav;
    }
    if chars_eq_str(s, "main") {
        return Tag::Main;
    }
    if chars_eq_str(s, "article") {
        return Tag::Article;
    }
    if chars_eq_str(s, "section") {
        return Tag::Section;
    }
    if chars_eq_str(s, "aside") {
        return Tag::Aside;
    }
    if chars_eq_str(s, "br") {
        return Tag::Br;
    }
    if chars_eq_str(s, "hr") {
        return Tag::Hr;
    }
    if chars_eq_str(s, "code") {
        return Tag::Code;
    }
    if chars_eq_str(s, "pre") {
        return Tag::Pre;
    }
    if chars_eq_str(s, "blockquote") {
        return Tag::Blockquote;
    }
    if chars_eq_str(s, "em") {
        return Tag::Em;
    }
    if chars_eq_str(s, "strong") {
        return Tag::Strong;
    }
    if chars_eq_str(s, "small") {
        return Tag::Small;
    }
    if chars_eq_str(s, "mark") {
        return Tag::Mark;
    }
    if chars_eq_str(s, "time") {
        return Tag::Time;
    }
    Tag::Div
}

impl Tag {
    /// The tag named by `value`, compared without regard to case; unknown names
    /// give `Div`.
    pub fn from_name(value: &str) -> (t: Tag)
        ensures
            t == tag_from_lower(lowercase(value@)),
            all_ascii(value@) ==> t == tag_from_lower(ascii_lower_seq(value@)),
    {
        let lowered = to_lowercase(value);
        let cs = chars_of(lowered.as_str());
        tag_from_lower_exec(cs.as_slice())
    }

    /// The lower-case name of the tag.
    pub fn name(&self) -> (s: &'static str)
        ensures
            s@ == tag_name(*self),
    {
        proof {
            reveal_strlit("html");
            assert("html"@ =~= seq!['h', 't', 'm', 'l']);
            reveal_strlit("head");
            assert("head"@ =~= seq!['h', 'e', 'a', 'd']);
            reveal_strlit("body");
            assert("body"@ =~= seq!['b', 'o', 'd', 'y']);
            reveal_strlit("title");
            assert("title"@ =~= seq!['t', 'i', 't', 'l', 'e']);
            reveal_strlit("meta");
            assert("meta"@ =~= seq!['m', 'e', 't', 'a']);
            reveal_strlit("link");
            assert("link"@ =~= seq!['l', 'i', 'n', 'k']);
            reveal_strlit("script");
            assert("script"@ =~= seq!['s', 'c', 'r', 'i', 'p', 't']);
            reveal_strlit("style");
            assert("style"@ =~= seq!['s', 't', 'y', 'l', 'e']);
            reveal_strlit("div");
            assert("div"@ =~= seq!['d', 'i', 'v']);
            reveal_strlit("p");
            assert("p"@ =~= seq!['p']);
            reveal_strlit("span");
            assert("span"@ =~= seq!['s', 'p', 'a', 'n']);
            reveal_strlit("h1");
            assert("h1"@ =~= seq!['h', '1']);
            reveal_strlit("h2");
            assert("h2"@ =~= seq!['h', '2']);
            reveal_strlit("h3");
            assert("h3"@ =~= seq!['h', '3']);
            reveal_strlit("h4");
            assert("h4"@ =~= seq!['h', '4']);
            reveal_strlit("h5");
            assert("h5"@ =~= seq!['h', '5']);
            reveal_strlit("h6");
            assert("h6"@ =~= seq!['h', '6']);
            reveal_strlit("ul");
            assert("ul"@ =~= seq!['u', 'l']);
            reveal_strlit("ol");
            assert("ol"@ =~= seq!['o', 'l']);
            reveal_strlit("li");
            assert("li"@ =~= seq!['l', 'i']);
            reveal_strlit("table");
            assert("table"@ =~= seq!['t', 'a', 'b', 'l', 'e']);
            reveal_strlit("thead");
            assert("thead"@ =~= seq!['t', 'h', 'e', 'a', 'd']);
            reveal_strlit("tbody");
            assert("tbody"@ =~= seq!['t', 'b', 'o', 'd', 'y']);
            reveal_strlit("tr");
            assert("tr"@ =~= seq!['t', 'r']);
            reveal_strlit("th");
            assert("th"@ =~= seq!['t', 'h']);
            reveal_strlit("td");
            assert("td"@ =~= seq!['t', 'd']);
            reveal_strlit("form");
            assert("form"@ =~= seq!['f', 'o', 'r', 'm']);
            reveal_strlit("input");
            assert("input"@ =~= seq!['i', 'n', 'p', 'u', 't']);
            reveal_strlit("textarea");
            assert("textarea"@ =~= seq!['t', 'e', 'x', 't', 'a', 'r', 'e', 'a']);
            reveal_strlit("select");
            assert("select"@ =~= seq!['s', 'e', 'l', 'e', 'c', 't']);
            reveal_strlit("option");
            assert("option"@ =~= seq!['o', 'p', 't', 'i', 'o', 'n']);
            reveal_strlit("button");
            assert("button"@ =~= seq!['b', 'u', 't', 't', 'o', 'n']);
            reveal_strlit("label");
            assert("label"@ =~= seq!['l', 'a', 'b', 'e', 'l']);
            reveal_strlit("a");
            assert("a"@ =~= seq!['a']);
            reveal_strlit("img");
            assert("img"@ =~= seq!['i', 'm', 'g']);
            reveal_strlit("video");
            assert("video"@ =~= seq!['v', 'i', 'd', 'e', 'o']);
            reveal_strlit("audio");
            assert("audio"@ =~= seq!['a', 'u', 'd', 'i', 'o']);
            reveal_strlit("header");
            assert("header"@ =~= seq!['h', 'e', 'a', 'd', 'e', 'r']);
            reveal_strlit("footer");
            assert("footer"@ =~= seq!['f', 'o', 'o', 't', 'e', 'r']);
            reveal_strlit("nav");
            assert("nav"@ =~= seq!['n', 'a', 'v']);
            reveal_strlit("main");
            assert("main"@ =~= seq!['m', 'a', 'i', 'n']);
            reveal_strlit("article");
            assert("article"@ =~= seq!['a', 'r', 't', 'i', 'c', 'l', 'e']);
            reveal_strlit("section");
            assert("section"@ =~= seq!['s', 'e', 'c', 't', 'i', 'o', 'n']);
            reveal_strlit("aside");
            assert("aside"@ =~= seq!['a', 's', 'i', 'd', 'e']);
            reveal_strlit("br");
            assert("br"@ =~= seq!['b', 'r']);
            reveal_strlit("hr");
            assert("hr"@ =~= seq!['h', 'r']);
            reveal_strlit("code");
            assert("code"@ =~= seq!['c', 'o', 'd', 'e']);
            reveal_strlit("pre");
            assert("pre"@ =~= seq!['p', 'r', 'e']);
            reveal_strlit("blockquote");
            assert("blockquote"@ =~= seq!['b', 'l', 'o', 'c', 'k', 'q', 'u', 'o', 't', 'e']);
            reveal_strlit("em");
            assert("em"@ =~= seq!['e', 'm']);
            reveal_strlit("strong");
            assert("strong"@ =~= seq!['s', 't', 'r', 'o', 'n', 'g']);
            reveal_strlit("small");
            assert("small"@ =~= seq!['s', 'm', 'a', 'l', 'l']);
            reveal_strlit("mark");
            assert("mark"@ =~= seq!['m', 'a', 'r', 'k']);
            reveal_strlit("time");
            assert("time"@ =~= seq!['t', 'i', 'm', 'e']);
        }
        match self {
            Tag::Html => "html",
            Tag::Head => "head",
            Tag::Body => "body",
            Tag::Title => "title",
            Tag::Meta => "meta",
            Tag::Link => "link",
            Tag::Script => "script",
            Tag::Style => "style",
            Tag::Div => "div",
            Tag::P => "p",
            Tag::Span => "span",
            Tag::H1 => "h1",
            Tag::H2 => "h2",
            Tag::H3 => "h3",
            Tag::H4 => "h4",
            Tag::H5 => "h5",
            Tag::H6 => "h6",
            Tag::Ul => "ul",
            Tag::Ol => "ol",
            Tag::Li => "li",
            Tag::Table => "table",
            Tag::Thead => "thead",
            Tag::Tbody => "tbody",
            Tag::Tr => "tr",
            Tag::Th => "th",
            Tag::Td => "td",
            Tag::Form => "form",
            Tag::Input => "input",
            Tag::Textarea => "textarea",
            Tag::Select => "select",
            Tag::Option => "option",
            Tag::Button => "button",
            Tag::Label => "label",
            Tag::A => "a",
            Tag::Img => "img",
            Tag::Video => "video",
            Tag::Audio => "audio",
            Tag::Header => "header",
            Tag::Footer => "footer",
            Tag::Nav => "nav",
            Tag::Main => "main",
            Tag::Article => "article",
            Tag::Section => "section",
            Tag::Aside => "aside",
            Tag::Br => "br",
            Tag::Hr => "hr",
            Tag::Code => "code",
            Tag::Pre => "pre",
            Tag::Blockquote => "blockquote",
            Tag::Em => "em",
            Tag::Strong => "strong",
            Tag::Small => "small",
            Tag::Mark => "mark",
            Tag::Time => "time",
        }
    }
}

/// Reading the name of a tag back gives the tag.
pub proof fn law_name_round_trip(t: Tag)
    ensures
        tag_from_lower(ascii_lower_seq(tag_name(t))) == t,
        all_ascii(tag_name(t)),
{
    match t {
        Tag::Html => {
            assert(ascii_lower_seq(tag_name(t)) =~= tag_name(t));
            assert(tag_from_lower(tag_name(t)) == t);
        },
        Tag::Head => {
            assert(ascii_lower_seq(tag_name(t)) =~= tag_name(t));
            assert(tag_from_lower(tag_name(t)) == t);
        },
        Tag::Body => {
            assert(ascii_lower_seq(tag_name(t)) =~= tag_name(t));
            assert(tag_from_lower(tag_name(t)) == t);
        },
        Tag::Title => {
            assert(ascii_lower_seq(tag_name(t)) =~= tag_name(t));
            assert(tag_from_lower(tag_name(t)) == t);
        },
        Tag::Meta => {
            assert(ascii_lower_seq(tag_name(t)) =~= tag_name(t));
            assert(tag_from_lower(tag_name(t)) == t);
        },
        Tag::Link => {
            assert(ascii_lower_seq(tag_name(t)) =~= tag_name(t));
            assert(tag_from_lower(tag_name(t)) == t);
        },
        Tag::Script => {
            assert(ascii_lower_seq(tag_name(t)) =~= tag_name(t));
            assert(tag_from_lower(tag_name(t)) == t);
        },
        Tag::Style => {
            assert(ascii_lower_seq(tag_name(t)) =~= tag_name(t));
            assert(tag_from_lower(tag_name(t)) == t);
        },
        Tag::Div => {
            assert(ascii_lower_seq(tag_name(t)) =~= tag_name(t));
            assert(tag_from_lower(tag_name(t)) == t);
        },
        Tag::P => {
            assert(ascii_lower_seq(tag_name(t)) =~= tag_name(t));
            assert(tag_from_lower(tag_name(t)) == t);
        },
        Tag::Span => {
            assert(ascii_lower_seq(tag_name(t)) =~= tag_name(t));
            assert(tag_from_lower(tag_name(t)) == t);
        },
        Tag::H1 => {
            assert(ascii_lower_seq(tag_name(t)) =~= tag_name(t));
            assert(tag_from_lower(tag_name(t)) == t);
        },
        Tag::H2 => {
            assert(ascii_lower_seq(tag_name(t)) =~= tag_name(t));
            assert(tag_from_lower(tag_name(t)) == t);
        },
        Tag::H3 => {
            assert(ascii_lower_seq(tag_name(t)) =~= tag_name(t));
            assert(tag_from_lower(tag_name(t)) == t);
        },
        Tag::H4 => {
            assert(ascii_lower_seq(tag_name(t)) =~= tag_name(t));
            assert(tag_from_lower(tag_name(t)) == t);
        },
        Tag::H5 => {
            assert(ascii_lower_seq(tag_name(t)) =~= tag_name(t));
            assert(tag_from_lower(tag_name(t)) == t);
        },
        Tag::H6 => {
            assert(ascii_lower_seq(tag_name(t)) =~= tag_name(t));
            assert(tag_from_lower(tag_name(t)) == t);
        },
        Tag::Ul => {
            assert(ascii_lower_seq(tag_name(t)) =~= tag_name(t));
            assert(tag_from_lower(tag_name(t)) == t);
        },
        Tag::Ol => {
            assert(ascii_lower_seq(tag_name(t)) =~= tag_name(t));
            assert(tag_from_lower(tag_name(t)) == t);
        },
        Tag::Li => {
            assert(ascii_lower_seq(tag_name(t)) =~= tag_name(t));
            assert(tag_from_lower(tag_name(t)) == t);
        },
        Tag::Table => {
            assert(ascii_lower_seq(tag_name(t)) =~= tag_name(t));
            assert(tag_from_lower(tag_name(t)) == t);
        },
        Tag::Thead => {
            assert(ascii_lower_seq(tag_name(t)) =~= tag_name(t));
            assert(tag_from_lower(tag_name(t)) == t);
        },
        Tag::Tbody => {
            assert(ascii_lower_seq(tag_name(t)) =~= tag_name(t));
            assert(tag_from_lower(tag_name(t)) == t);
        },
        Tag::Tr => {
            assert(ascii_lower_seq(tag_name(t)) =~= tag_name(t));
            assert(tag_from_lower(tag_name(t)) == t);
        },
        Tag::Th => {
            assert(ascii_lower_seq(tag_name(t)) =~= tag_name(t));
            assert(tag_from_lower(tag_name(t)) == t);
        },
        Tag::Td => {
            assert(ascii_lower_seq(tag_name(t)) =~= tag_name(t));
            assert(tag_from_lower(tag_name(t)) == t);
        },
        Tag::Form => {
            assert(ascii_lower_seq(tag_name(t)) =~= tag_name(t));
            assert(tag_from_lower(tag_name(t)) == t);
        },
        Tag::Input => {
            assert(ascii_lower_seq(tag_name(t)) =~= tag_name(t));
            assert(tag_from_lower(tag_name(t)) == t);
        },
        Tag::Textarea => {
            assert(ascii_lower_seq(tag_name(t)) =~= tag_name(t));
            assert(tag_from_lower(tag_name(t)) == t);
        },
        Tag::Select => {
            assert(ascii_lower_seq(tag_name(t)) =~= tag_name(t));
            assert(tag_from_lower(tag_name(t)) == t);
        },
        Tag::Option => {
            assert(ascii_lower_seq(tag_name(t)) =~= tag_name(t));
            assert(tag_from_lower(tag_name(t)) == t);
        },
        Tag::Button => {
            assert(ascii_lower_seq(tag_name(t)) =~= tag_name(t));
            assert(tag_from_lower(tag_name(t)) == t);
        },
        Tag::Label => {
            assert(ascii_lower_seq(tag_name(t)) =~= tag_name(t));
            assert(tag_from_lower(tag_name(t)) == t);
        },
        Tag::A => {
            assert(seq!['a'][0] != seq!['p'][0]);
            assert(ascii_lower_seq(tag_name(t)) =~= tag_name(t));
            assert(tag_from_lower(tag_name(t)) == t);
        },
        Tag::Img => {
            assert(ascii_lower_seq(tag_name(t)) =~= tag_name(t));
            assert(tag_from_lower(tag_name(t)) == t);
        },
        Tag::Video => {
            assert(ascii_lower_seq(tag_name(t)) =~= tag_name(t));
            assert(tag_from_lower(tag_name(t)) == t);
        },
        Tag::Audio => {
            assert(ascii_lower_seq(tag_name(t)) =~= tag_name(t));
            assert(tag_from_lower(tag_name(t)) == t);
        },
        Tag::Header => {
            assert(ascii_lower_seq(tag_name(t)) =~= tag_name(t));
            assert(tag_from_lower(tag_name(t)) == t);
        },
        Tag::Footer => {
            assert(ascii_lower_seq(tag_name(t)) =~= tag_name(t));
            assert(tag_from_lower(tag_name(t)) == t);
        },
        Tag::Nav => {
            assert(ascii_lower_seq(tag_name(t)) =~= tag_name(t));
            assert(tag_from_lower(tag_name(t)) == t);
        },
        Tag::Main => {
            assert(ascii_lower_seq(tag_name(t)) =~= tag_name(t));
            assert(tag_from_lower(tag_name(t)) == t);
        },
        Tag::Article => {
            assert(ascii_lower_seq(tag_name(t)) =~= tag_name(t));
            assert(tag_from_lower(tag_name(t)) == t);
        },
        Tag::Section => {
            assert(ascii_lower_seq(tag_name(t)) =~= tag_name(t));
            assert(tag_from_lower(tag_name(t)) == t);
        },
        Tag::Aside => {
            assert(ascii_lower_seq(tag_name(t)) =~= tag_name(t));
            assert(tag_from_lower(tag_name(t)) == t);
        },
        Tag::Br => {
            assert(ascii_lower_seq(tag_name(t)) =~= tag_name(t));
            assert(tag_from_lower(tag_name(t)) == t);
        },
        Tag::Hr => {
            assert(ascii_lower_seq(tag_name(t)) =~= tag_name(t));
            assert(tag_from_lower(tag_name(t)) == t);
        },
        Tag::Code => {
            assert(ascii_lower_seq(tag_name(t)) =~= tag_name(t));
            assert(tag_from_lower(tag_name(t)) == t);
        },
        Tag::Pre => {
            assert(ascii_lower_seq(tag_name(t)) =~= tag_name(t));
            assert(tag_from_lower(tag_name(t)) == t);
        },
        Tag::Blockquote => {
            assert(ascii_lower_seq(tag_name(t)) =~= tag_name(t));
            assert(tag_from_lower(tag_name(t)) == t);
        },
        Tag::Em => {
            assert(ascii_lower_seq(tag_name(t)) =~= tag_name(t));
            assert(tag_from_lower(tag_name(t)) == t);
        },
        Tag::Strong => {
            assert(ascii_lower_seq(tag_name(t)) =~= tag_name(t));
            assert(tag_from_lower(tag_name(t)) == t);
        },
        Tag::Small => {
            assert(ascii_lower_seq(tag_name(t)) =~= tag_name(t));
            assert(tag_from_lower(tag_name(t)) == t);
        },
        Tag::Mark => {
            assert(ascii_lower_seq(tag_name(t)) =~= tag_name(t));
            assert(tag_from_lower(tag_name(t)) == t);
        },
        Tag::Time => {
            assert(ascii_lower_seq(tag_name(t)) =~= tag_name(t));
            assert(tag_from_lower(tag_name(t)) == t);
        },
    }
}

impl<'a> From<&'a str> for Tag {
    /// The tag named by `value`, compared without regard to case; unknown names
    /// give `Div`.
    fn from(value: &'a str) -> (t: Tag) {
        Tag::from_name(value)
    }
}

impl<'a> vstd::std_specs::convert::FromSpecImpl<&'a str> for Tag {
    open spec fn obeys_from_spec() -> bool {
        true
    }

    open spec fn from_spec(v: &'a str) -> Tag {
        tag_from_lower(lowercase(v@))
    }
}

/// The name of a tag as a string literal.
pub open spec fn tag_str(t: Tag) -> &'static str {
    match t {
        Tag::Html => "html",
        Tag::Head => "head",
        Tag::Body => "body",
        Tag::Title => "title",
        Tag::Meta => "meta",
        Tag::Link => "link",
        Tag::Script => "script",
        Tag::Style => "style",
        Tag::Div => "div",
        Tag::P => "p",
        Tag::Span => "span",
        Tag::H1 => "h1",
        Tag::H2 => "h2",
        Tag::H3 => "h3",
        Tag::H4 => "h4",
        Tag::H5 => "h5",
        Tag::H6 => "h6",
        Tag::Ul => "ul",
        Tag::Ol => "ol",
        Tag::Li => "li",
        Tag::Table => "table",
        Tag::Thead => "thead",
        Tag::Tbody => "tbody",
        Tag::Tr => "tr",
        Tag::Th => "th",
        Tag::Td => "td",
        Tag::Form => "form",
        Tag::Input => "input",
        Tag::Textarea => "textarea",
        Tag::Select => "select",
        Tag::Option => "option",
        Tag::Button => "button",
        Tag::Label => "label",
        Tag::A => "a",
        Tag::Img => "img",
        Tag::Video => "video",
        Tag::Audio => "audio",
        Tag::Header => "header",
        Tag::Footer => "footer",
        Tag::Nav => "nav",
        Tag::Main => "main",
        Tag::Article => "article",
        Tag::Section => "section",
        Tag::Aside => "aside",
        Tag::Br => "br",
        Tag::Hr => "hr",
        Tag::Code => "code",
        Tag::Pre => "pre",
        Tag::Blockquote => "blockquote",
        Tag::Em => "em",
        Tag::Strong => "strong",
        Tag::Small => "small",
        Tag::Mark => "mark",
        Tag::Time => "time",
    }
}

impl From<Tag> for &'static str {
    /// The lower-case name of the tag.
    fn from(value: Tag) -> (s: &'static str) {
        value.name_str()
    }
}

impl vstd::std_specs::convert::FromSpecImpl<Tag> for &'static str {
    open spec fn obeys_from_spec() -> bool {
        true
    }

    open spec fn from_spec(v: Tag) -> &'static str {
        tag_str(v)
    }
}

impl Tag {
    /// The name of the tag, as the literal `tag_str` gives.
    fn name_str(&self) -> (s: &'static str)
        ensures
            s == tag_str(*self),
    {
        match self {
            Tag::Html => "html",
            Tag::Head => "head",
            Tag::Body => "body",
            Tag::Title => "title",
            Tag::Meta => "meta",
            Tag::Link => "link",
            Tag::Script => "script",
            Tag::Style => "style",
            Tag::Div => "div",
            Tag::P => "p",
            Tag::Span => "span",
            Tag::H1 => "h1",
            Tag::H2 => "h2",
            Tag::H3 => "h3",
            Tag::H4 => "h4",
            Tag::H5 => "h5",
            Tag::H6 => "h6",
            Tag::Ul => "ul",
            Tag::Ol => "ol",
            Tag::Li => "li",
            Tag::Table => "table",
            Tag::Thead => "thead",
            Tag::Tbody => "tbody",
            Tag::Tr => "tr",
            Tag::Th => "th",
            Tag::Td => "td",
            Tag::Form => "form",
            Tag::Input => "input",
            Tag::Textarea => "textarea",
            Tag::Select => "select",
            Tag::Option => "option",
            Tag::Button => "button",
            Tag::Label => "label",
            Tag::A => "a",
            Tag::Img => "img",
            Tag::Video => "video",
            Tag::Audio => "audio",
            Tag::Header => "header",
            Tag::Footer => "footer",
            Tag::Nav => "nav",
            Tag::Main => "main",
            Tag::Article => "article",
            Tag::Section => "section",
            Tag::Aside => "aside",
            Tag::Br => "br",
            Tag::Hr => "hr",
            Tag::Code => "code",
            Tag::Pre => "pre",
            Tag::Blockquote => "blockquote",
            Tag::Em => "em",
            Tag::Strong => "strong",
            Tag::Small => "small",
            Tag::Mark => "mark",
            Tag::Time => "time",
        }
    }
}

} // verus!
