//! How deeply the elements of an XML text are nested, read off its tags alone.

use vstd::prelude::*;
use crate::foreign::{fields_text, is_simple_name, is_simple_text, FlatXml};
use crate::text::chars;

verus! {

/// How deeply the elements of a response may be nested. The XML parser calls itself
/// for each open element: built without optimisation, it overflows the 2 MiB that a
/// thread has by default at some 350 of them, and the caller needs a part of the stack
/// too. GameStream responses have three open elements at most.
pub const MAX_NESTING: usize = 200;

/// Where in an XML text a character stands, by what stands before it.
#[derive(Debug, Clone, Copy, PartialEq, Eq, Structural)]
pub enum XmlPlace {
    /// Between tags.
    Text,
    /// Behind a `<`.
    TagStart,
    /// Behind `<!`.
    Bang,
    /// Behind `<!-`.
    BangDash,
    Comment,
    /// In a comment, behind a `-`.
    CommentDash,
    /// In a comment, behind `--`.
    CommentDashes,
    /// Behind `<![`.
    Cdata,
    /// Behind `<![` and a `]`.
    CdataBracket,
    /// Behind `<![` and `]]`.
    CdataBrackets,
    /// Behind `<?`.
    Instruction,
    /// Behind `<?` and a `?`.
    InstructionMark,
    /// In a closing tag.
    Closing,
    /// In an opening tag.
    Opening,
    /// In an opening tag, behind a `/`.
    OpeningSlash,
    /// In an opening tag, in double quotes.
    DoubleQuoted,
    /// In an opening tag, in single quotes.
    SingleQuoted,
}

/// Where the character behind `c` stands, for `c` at `place`.
pub open spec fn place_behind(place: XmlPlace, c: char) -> XmlPlace {
    match place {
        XmlPlace::Text => if c == '<' {
            XmlPlace::TagStart
        } else {
            XmlPlace::Text
        },
        XmlPlace::TagStart => if c == '/' {
            XmlPlace::Closing
        } else if c == '!' {
            XmlPlace::Bang
        } else if c == '?' {
            XmlPlace::Instruction
        } else {
            XmlPlace::Opening
        },
        XmlPlace::Bang => if c == '-' {
            XmlPlace::BangDash
        } else if c == '[' {
            XmlPlace::Cdata
        } else {
            XmlPlace::Text
        },
        XmlPlace::BangDash => XmlPlace::Comment,
        XmlPlace::Comment => if c == '-' {
            XmlPlace::CommentDash
        } else {
            XmlPlace::Comment
        },
        XmlPlace::CommentDash => if c == '-' {
            XmlPlace::CommentDashes
        } else {
            XmlPlace::Comment
        },
        XmlPlace::CommentDashes => if c == '>' {
            XmlPlace::Text
        } else if c == '-' {
            XmlPlace::CommentDashes
        } else {
            XmlPlace::Comment
        },
        XmlPlace::Cdata => if c == ']' {
            XmlPlace::CdataBracket
        } else {
            XmlPlace::Cdata
        },
        XmlPlace::CdataBracket => if c == ']' {
            XmlPlace::CdataBrackets
        } else {
            XmlPlace::Cdata
        },
        XmlPlace::CdataBrackets => if c == '>' {
            XmlPlace::Text
        } else if c == ']' {
            XmlPlace::CdataBrackets
        } else {
            XmlPlace::Cdata
        },
        XmlPlace::Instruction => if c == '?' {
            XmlPlace::InstructionMark
        } else {
            XmlPlace::Instruction
        },
        XmlPlace::InstructionMark => if c == '>' {
            XmlPlace::Text
        } else if c == '?' {
            XmlPlace::InstructionMark
        } else {
            XmlPlace::Instruction
        },
        XmlPlace::Closing => if c == '>' {
            XmlPlace::Text
        } else {
            XmlPlace::Closing
        },
        XmlPlace::Opening => if c == '>' {
            XmlPlace::Text
        } else if c == '/' {
            XmlPlace::OpeningSlash
        } else if c == '"' {
            XmlPlace::DoubleQuoted
        } else if c == '\'' {
            XmlPlace::SingleQuoted
        } else {
            XmlPlace::Opening
        },
        XmlPlace::OpeningSlash => if c == '>' {
            XmlPlace::Text
        } else {
            XmlPlace::Opening
        },
        XmlPlace::DoubleQuoted => if c == '"' {
            XmlPlace::Opening
        } else {
            XmlPlace::DoubleQuoted
        },
        XmlPlace::SingleQuoted => if c == '\'' {
            XmlPlace::Opening
        } else {
            XmlPlace::SingleQuoted
        },
    }
}

/// What is known behind a part of an XML text: where the next character stands,
/// how many elements are open there, and how many were at most.
pub struct XmlScan {
    pub place: XmlPlace,
    pub depth: nat,
    pub deepest: nat,
}

impl XmlScan {
    /// At the start of a text.
    pub open spec fn start() -> XmlScan {
        XmlScan { place: XmlPlace::Text, depth: 0, deepest: 0 }
    }

    /// Behind one more character. An element is open from its `<` to the `>` of its
    /// closing tag, or to its own `/>`.
    pub open spec fn behind(self, c: char) -> XmlScan {
        let place = place_behind(self.place, c);
        let depth = if self.place is TagStart && place is Opening {
            self.depth + 1
        } else if (self.place is Closing || self.place is OpeningSlash) && c == '>' && self.depth
            > 0 {
            (self.depth - 1) as nat
        } else {
            self.depth
        };
        XmlScan {
            place,
            depth,
            deepest: if depth > self.deepest {
                depth
            } else {
                self.deepest
            },
        }
    }

    /// Behind more text.
    pub open spec fn over(self, s: Seq<char>) -> XmlScan
        decreases s.len(),
    {
        if s.len() == 0 {
            self
        } else {
            self.over(s.drop_last()).behind(s.last())
        }
    }
}

/// The greatest number of elements that are open at once in an XML text.
pub open spec fn xml_nesting(body: Seq<char>) -> nat {
    XmlScan::start().over(body).deepest
}

/// Where the character behind `c` stands, for `c` at `place`.
fn next_place(place: XmlPlace, c: char) -> (r: XmlPlace)
    ensures
        r == place_behind(place, c),
{
    match place {
        XmlPlace::Text => if c == '<' {
            XmlPlace::TagStart
        } else {
            XmlPlace::Text
        },
        XmlPlace::TagStart => match c {
            '/' => XmlPlace::Closing,
            '!' => XmlPlace::Bang,
            '?' => XmlPlace::Instruction,
            _ => XmlPlace::Opening,
        },
        XmlPlace::Bang => match c {
            '-' => XmlPlace::BangDash,
            '[' => XmlPlace::Cdata,
            _ => XmlPlace::Text,
        },
        XmlPlace::BangDash => XmlPlace::Comment,
        XmlPlace::Comment => if c == '-' {
            XmlPlace::CommentDash
        } else {
            XmlPlace::Comment
        },
        XmlPlace::CommentDash => if c == '-' {
            XmlPlace::CommentDashes
        } else {
            XmlPlace::Comment
        },
        XmlPlace::CommentDashes => match c {
            '>' => XmlPlace::Text,
            '-' => XmlPlace::CommentDashes,
            _ => XmlPlace::Comment,
        },
        XmlPlace::Cdata => if c == ']' {
            XmlPlace::CdataBracket
        } else {
            XmlPlace::Cdata
        },
        XmlPlace::CdataBracket => if c == ']' {
            XmlPlace::CdataBrackets
        } else {
            XmlPlace::Cdata
        },
        XmlPlace::CdataBrackets => match c {
            '>' => XmlPlace::Text,
            ']' => XmlPlace::CdataBrackets,
            _ => XmlPlace::Cdata,
        },
        XmlPlace::Instruction => if c == '?' {
            XmlPlace::InstructionMark
        } else {
            XmlPlace::Instruction
        },
        XmlPlace::InstructionMark => match c {
            '>' => XmlPlace::Text,
            '?' => XmlPlace::InstructionMark,
            _ => XmlPlace::Instruction,
        },
        XmlPlace::Closing => if c == '>' {
            XmlPlace::Text
        } else {
            XmlPlace::Closing
        },
        XmlPlace::Opening => match c {
            '>' => XmlPlace::Text,
            '/' => XmlPlace::OpeningSlash,
            '"' => XmlPlace::DoubleQuoted,
            '\'' => XmlPlace::SingleQuoted,
            _ => XmlPlace::Opening,
        },
        XmlPlace::OpeningSlash => if c == '>' {
            XmlPlace::Text
        } else {
            XmlPlace::Opening
        },
        XmlPlace::DoubleQuoted => if c == '"' {
            XmlPlace::Opening
        } else {
            XmlPlace::DoubleQuoted
        },
        XmlPlace::SingleQuoted => if c == '\'' {
            XmlPlace::Opening
        } else {
            XmlPlace::SingleQuoted
        },
    }
}

/// Whether no more than [`MAX_NESTING`] elements of an XML text are open at once.
pub fn is_shallow(body: &str) -> (r: bool)
    ensures
        r == (xml_nesting(body@) <= MAX_NESTING),
{
    let v = chars(body);
    let mut place = XmlPlace::Text;
    let mut depth: usize = 0;
    let mut deepest: usize = 0;
    let mut i: usize = 0;
    while i < v.len()
        invariant
            i <= v@.len(),
            depth <= i,
            deepest <= i,
            XmlScan::start().over(v@.take(i as int)) == (XmlScan {
                place,
                depth: depth as nat,
                deepest: deepest as nat,
            }),
        decreases v.len() - i,
    {
        let c = v[i];
        proof {
            assert(v@.take(i + 1).drop_last() =~= v@.take(i as int));
            assert(v@.take(i + 1).last() == c);
        }
        let next = next_place(place, c);
        if place == XmlPlace::TagStart && next == XmlPlace::Opening {
            depth += 1;
        } else if (place == XmlPlace::Closing || place == XmlPlace::OpeningSlash) && c == '>'
            && depth > 0 {
            depth -= 1;
        }
        if depth > deepest {
            deepest = depth;
        }
        place = next;
        i += 1;
    }
    assert(v@.take(v@.len() as int) =~= v@);
    deepest <= MAX_NESTING
}

/// A text is read part by part.
proof fn lemma_over_both(at: XmlScan, a: Seq<char>, b: Seq<char>)
    ensures
        at.over(a + b) == at.over(a).over(b),
    decreases b.len(),
{
    if b.len() == 0 {
        assert(a + b =~= a);
    } else {
        lemma_over_both(at, a, b.drop_last());
        assert((a + b).drop_last() =~= a + b.drop_last());
    }
}

/// Characters that leave the place as it is leave everything as it is.
proof fn lemma_over_plain(at: XmlScan, s: Seq<char>)
    requires
        at.depth <= at.deepest,
        at.place is Text || at.place is Opening || at.place is Closing || at.place is DoubleQuoted
            || at.place is SingleQuoted || at.place is Comment || at.place is Cdata
            || at.place is Instruction,
        forall|i: int| 0 <= i < s.len() ==> place_behind(at.place, #[trigger] s[i]) == at.place,
    ensures
        at.over(s) == at,
    decreases s.len(),
{
    if s.len() > 0 {
        assert forall|i: int| 0 <= i < s.len() - 1 implies place_behind(
            at.place,
            #[trigger] s.drop_last()[i],
        ) == at.place by {
            assert(s.drop_last()[i] == s[i]);
        }
        lemma_over_plain(at, s.drop_last());
        assert(place_behind(at.place, s[s.len() - 1]) == at.place);
    }
}

/// The name behind the `<` of an opening tag.
proof fn lemma_over_name(at: XmlScan, name: Seq<char>)
    requires
        at.depth <= at.deepest,
        at.place is TagStart,
        is_simple_name(name),
    ensures
        at.over(name) == (XmlScan {
            place: XmlPlace::Opening,
            depth: at.depth + 1,
            deepest: if at.depth + 1 > at.deepest {
                at.depth + 1
            } else {
                at.deepest
            },
        }),
{
    let first = seq![name[0]];
    let rest = name.drop_first();
    assert(first + rest =~= name);
    lemma_over_both(at, first, rest);
    assert(first.drop_last() =~= Seq::empty());
    assert(at.over(first) == at.behind(name[0])) by {
        reveal_with_fuel(XmlScan::over, 2);
    }
    assert forall|i: int| 0 <= i < rest.len() implies place_behind(
        XmlPlace::Opening,
        #[trigger] rest[i],
    ) is Opening by {
        assert(rest[i] == name[i + 1]);
    }
    lemma_over_plain(at.behind(name[0]), rest);
}

/// A text of one character.
proof fn lemma_over_one(at: XmlScan, s: Seq<char>)
    requires
        s.len() == 1,
    ensures
        at.over(s) == at.behind(s[0]),
{
    reveal_with_fuel(XmlScan::over, 2);
    assert(s.drop_last() =~= Seq::empty());
}

/// A text of two characters.
proof fn lemma_over_two(at: XmlScan, s: Seq<char>)
    requires
        s.len() == 2,
    ensures
        at.over(s) == at.behind(s[0]).behind(s[1]),
{
    lemma_over_one(at, s.drop_last());
}

/// The closing tag of an element.
proof fn lemma_over_close(at: XmlScan, before: Seq<char>, name: Seq<char>)
    requires
        at.over(before).place is Text,
        0 < at.over(before).depth <= at.over(before).deepest,
        is_simple_name(name),
    ensures
        at.over(before + "</"@ + name + ">"@) == (XmlScan {
            depth: (at.over(before).depth - 1) as nat,
            ..at.over(before)
        }),
{
    reveal_strlit("</");
    reveal_strlit(">");
    let s0 = at.over(before);
    lemma_over_both(at, before, "</"@);
    lemma_over_two(s0, "</"@);
    let s1 = s0.over("</"@);
    lemma_over_both(at, before + "</"@, name);
    lemma_over_plain(s1, name);
    lemma_over_both(at, before + "</"@ + name, ">"@);
    lemma_over_one(s1, ">"@);
}

/// Elements in a row leave the depth as it was.
proof fn lemma_over_fields(at: XmlScan, before: Seq<char>, fields: Seq<(Seq<char>, Seq<char>)>)
    requires
        at.over(before).place is Text,
        at.over(before).depth == 1,
        at.over(before).deepest == 1,
        forall|i: int|
            0 <= i < fields.len() ==> is_simple_name((#[trigger] fields[i]).0) && is_simple_text(
                fields[i].1,
            ),
    ensures
        at.over(before + fields_text(fields)).place is Text,
        at.over(before + fields_text(fields)).depth == 1,
        1 <= at.over(before + fields_text(fields)).deepest <= 2,
    decreases fields.len(),
{
    if fields.len() == 0 {
        assert(before + fields_text(fields) =~= before);
    } else {
        let front = fields.drop_last();
        assert forall|i: int| 0 <= i < front.len() implies is_simple_name(
            (#[trigger] front[i]).0,
        ) && is_simple_text(front[i].1) by {
            assert(front[i] == fields[i]);
        }
        lemma_over_fields(at, before, front);
        let (name, text) = fields[fields.len() - 1];
        reveal_strlit("<");
        reveal_strlit(">");
        let p0 = before + fields_text(front);
        let s0 = at.over(p0);
        lemma_over_both(at, p0, "<"@);
        lemma_over_one(s0, "<"@);
        let s1 = s0.over("<"@);
        lemma_over_both(at, p0 + "<"@, name);
        lemma_over_name(s1, name);
        let s2 = s1.over(name);
        lemma_over_both(at, p0 + "<"@ + name, ">"@);
        lemma_over_one(s2, ">"@);
        let s3 = s2.over(">"@);
        let p3 = p0 + "<"@ + name + ">"@;
        lemma_over_both(at, p3, text);
        lemma_over_plain(s3, text);
        lemma_over_close(at, p3 + text, name);
        assert(before + fields_text(fields) =~= p3 + text + "</"@ + name + ">"@);
    }
}

/// A document of simple fields is nested two deep at most.
pub proof fn lemma_flat_is_shallow(flat: FlatXml)
    requires
        flat.simple(),
    ensures
        xml_nesting(flat.text()) <= 2,
{
    let at = XmlScan::start();
    reveal_strlit("<");
    reveal_strlit(" ");
    reveal_strlit("=\"");
    reveal_strlit("\">");
    lemma_over_one(at, "<"@);
    let s1 = at.over("<"@);
    let p1 = "<"@ + flat.root;
    lemma_over_both(at, "<"@, flat.root);
    lemma_over_name(s1, flat.root);
    let s2 = at.over(p1);
    let p2 = p1 + " "@;
    lemma_over_both(at, p1, " "@);
    lemma_over_one(s2, " "@);
    let p3 = p2 + flat.attribute;
    lemma_over_both(at, p2, flat.attribute);
    lemma_over_plain(s2, flat.attribute);
    let p4 = p3 + "=\""@;
    lemma_over_both(at, p3, "=\""@);
    lemma_over_two(s2, "=\""@);
    let s4 = at.over(p4);
    let p5 = p4 + flat.value;
    lemma_over_both(at, p4, flat.value);
    lemma_over_plain(s4, flat.value);
    let p6 = p5 + "\">"@;
    lemma_over_both(at, p5, "\">"@);
    lemma_over_two(s4, "\">"@);
    lemma_over_fields(at, p6, flat.fields);
    lemma_over_close(at, p6 + fields_text(flat.fields), flat.root);
}

/// Behind the opening tag of an element, for a tag that stands at `at`.
pub open spec fn inside(at: XmlScan) -> XmlScan {
    XmlScan {
        place: XmlPlace::Text,
        depth: at.depth + 1,
        deepest: if at.depth + 1 > at.deepest {
            at.depth + 1
        } else {
            at.deepest
        },
    }
}

/// An element is open from its opening tag to its closing tag, whatever well-formed
/// text stands between them. One that is closed at once is open for its own tag.
pub proof fn elements_count_while_they_are_open(at: XmlScan, name: Seq<char>, content: Seq<char>)
    requires
        at.place is Text,
        at.depth <= at.deepest,
        is_simple_name(name),
    ensures
        at.over("<"@ + name + ">"@) == inside(at),
        at.over("<"@ + name + "/>"@) == (XmlScan { depth: at.depth, ..inside(at) }),
        ({
            let end = inside(at).over(content);
            end.place is Text && end.depth == at.depth + 1 <= end.deepest ==> at.over(
                "<"@ + name + ">"@ + content + "</"@ + name + ">"@,
            ) == (XmlScan { depth: at.depth, ..end })
        }),
{
    reveal_strlit("<");
    reveal_strlit(">");
    reveal_strlit("/>");
    lemma_over_one(at, "<"@);
    let s1 = at.over("<"@);
    lemma_over_both(at, "<"@, name);
    lemma_over_name(s1, name);
    let s2 = s1.over(name);
    lemma_over_both(at, "<"@ + name, ">"@);
    lemma_over_one(s2, ">"@);
    lemma_over_both(at, "<"@ + name, "/>"@);
    lemma_over_two(s2, "/>"@);
    let open = "<"@ + name + ">"@;
    lemma_over_both(at, open, content);
    let end = inside(at).over(content);
    if end.place is Text && end.depth == at.depth + 1 <= end.deepest {
        lemma_over_close(at, open + content, name);
    }
}

/// Text between tags opens and closes nothing, and neither does what stands in a
/// comment, in character data or in an instruction.
pub proof fn only_tags_count(at: XmlScan, text: Seq<char>)
    requires
        at.place is Text,
        at.depth <= at.deepest,
    ensures
        !text.contains('<') ==> at.over(text) == at,
        !text.contains('-') ==> at.over("<!--"@ + text + "-->"@) == at,
        !text.contains(']') ==> at.over("<!["@ + text + "]]>"@) == at,
        !text.contains('?') ==> at.over("<?"@ + text + "?>"@) == at,
{
    reveal_strlit("<!--");
    reveal_strlit("-->");
    reveal_strlit("<![");
    reveal_strlit("]]>");
    reveal_strlit("<?");
    reveal_strlit("?>");
    assert forall|i: int| 0 <= i < text.len() implies text.contains(#[trigger] text[i]) by {}
    if !text.contains('<') {
        lemma_over_plain(at, text);
    }
    if !text.contains('-') {
        let s = XmlScan { place: XmlPlace::Comment, ..at };
        lemma_over_four(at, "<!--"@);
        lemma_over_both(at, "<!--"@, text);
        lemma_over_plain(s, text);
        lemma_over_both(at, "<!--"@ + text, "-->"@);
        lemma_over_three(s, "-->"@);
    }
    if !text.contains(']') {
        let s = XmlScan { place: XmlPlace::Cdata, ..at };
        lemma_over_three(at, "<!["@);
        lemma_over_both(at, "<!["@, text);
        lemma_over_plain(s, text);
        lemma_over_both(at, "<!["@ + text, "]]>"@);
        lemma_over_three(s, "]]>"@);
    }
    if !text.contains('?') {
        let s = XmlScan { place: XmlPlace::Instruction, ..at };
        lemma_over_two(at, "<?"@);
        lemma_over_both(at, "<?"@, text);
        lemma_over_plain(s, text);
        lemma_over_both(at, "<?"@ + text, "?>"@);
        lemma_over_two(s, "?>"@);
    }
}

/// A text of three characters.
proof fn lemma_over_three(at: XmlScan, s: Seq<char>)
    requires
        s.len() == 3,
    ensures
        at.over(s) == at.behind(s[0]).behind(s[1]).behind(s[2]),
{
    lemma_over_two(at, s.drop_last());
}

/// A text of four characters.
proof fn lemma_over_four(at: XmlScan, s: Seq<char>)
    requires
        s.len() == 4,
    ensures
        at.over(s) == at.behind(s[0]).behind(s[1]).behind(s[2]).behind(s[3]),
{
    lemma_over_three(at, s.drop_last());
}

/// What stands in quotes in a tag, a `>` too, does not end it.
pub proof fn quotes_hide_the_end_of_a_tag(at: XmlScan, name: Seq<char>, value: Seq<char>)
    requires
        at.place is Text,
        at.depth <= at.deepest,
        is_simple_name(name),
    ensures
        !value.contains('"') ==> at.over("<"@ + name + " a=\""@ + value + "\">"@) == inside(at),
        !value.contains('\'') ==> at.over("<"@ + name + " a='"@ + value + "'>"@) == inside(at),
{
    reveal_strlit("<");
    reveal_strlit(" a=\"");
    reveal_strlit("\">");
    reveal_strlit(" a='");
    reveal_strlit("'>");
    lemma_over_one(at, "<"@);
    let s1 = at.over("<"@);
    lemma_over_both(at, "<"@, name);
    lemma_over_name(s1, name);
    let s2 = s1.over(name);
    let p2 = "<"@ + name;
    assert forall|i: int| 0 <= i < value.len() implies value.contains(#[trigger] value[i]) by {}
    if !value.contains('"') {
        let s3 = XmlScan { place: XmlPlace::DoubleQuoted, ..inside(at) };
        lemma_over_both(at, p2, " a=\""@);
        lemma_over_four(s2, " a=\""@);
        lemma_over_both(at, p2 + " a=\""@, value);
        lemma_over_plain(s3, value);
        lemma_over_both(at, p2 + " a=\""@ + value, "\">"@);
        lemma_over_two(s3, "\">"@);
    }
    if !value.contains('\'') {
        let s3 = XmlScan { place: XmlPlace::SingleQuoted, ..inside(at) };
        lemma_over_both(at, p2, " a='"@);
        lemma_over_four(s2, " a='"@);
        lemma_over_both(at, p2 + " a='"@, value);
        lemma_over_plain(s3, value);
        lemma_over_both(at, p2 + " a='"@ + value, "'>"@);
        lemma_over_two(s3, "'>"@);
    }
}

/// `n` opening tags in a row.
pub open spec fn tower(name: Seq<char>, n: nat) -> Seq<char>
    decreases n,
{
    if n == 0 {
        Seq::empty()
    } else {
        tower(name, (n - 1) as nat) + ("<"@ + name + ">"@)
    }
}

/// A text is nested as deeply as there are elements in each other, and by no more
/// text less deeply.
pub proof fn towers_are_as_deep_as_they_are_high(name: Seq<char>, n: nat, more: Seq<char>)
    requires
        is_simple_name(name),
    ensures
        xml_nesting(tower(name, n)) == n,
        xml_nesting(tower(name, n) + more) >= n,
{
    lemma_tower(name, n);
    lemma_over_both(XmlScan::start(), tower(name, n), more);
    lemma_deepest_grows(XmlScan::start().over(tower(name, n)), more);
}

proof fn lemma_tower(name: Seq<char>, n: nat)
    requires
        is_simple_name(name),
    ensures
        XmlScan::start().over(tower(name, n)) == (XmlScan {
            place: XmlPlace::Text,
            depth: n,
            deepest: n,
        }),
    decreases n,
{
    if n > 0 {
        let before = tower(name, (n - 1) as nat);
        lemma_tower(name, (n - 1) as nat);
        lemma_over_both(XmlScan::start(), before, "<"@ + name + ">"@);
        elements_count_while_they_are_open(
            XmlScan::start().over(before),
            name,
            Seq::empty(),
        );
    }
}

proof fn lemma_deepest_grows(at: XmlScan, s: Seq<char>)
    ensures
        at.over(s).deepest >= at.deepest,
    decreases s.len(),
{
    if s.len() > 0 {
        lemma_deepest_grows(at, s.drop_last());
    }
}

} // verus!
