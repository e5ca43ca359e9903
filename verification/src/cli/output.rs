//! Text that is safe to put into a report.

use crate::text::to_chars;
use vstd::prelude::*;
use vstd::string::*;

verus! {

/// What stands for a character in XML text: the five characters with a
/// meaning of their own are written as entities, every other character as
/// itself.
pub open spec fn xml_entity(c: char) -> Seq<char> {
    if c == '&' {
        "&amp;"@
    } else if c == '<' {
        "&lt;"@
    } else if c == '>' {
        "&gt;"@
    } else if c == '"' {
        "&quot;"@
    } else if c == '\'' {
        "&apos;"@
    } else {
        seq![c]
    }
}

/// `text` with each of its characters written as XML text.
pub open spec fn xml_escaped(text: Seq<char>) -> Seq<char>
    decreases text.len(),
{
    if text.len() == 0 {
        Seq::empty()
    } else {
        xml_escaped(text.drop_last()) + xml_entity(text.last())
    }
}

/// `text` with `&`, `<`, `>`, `"` and `'` written as entities.
pub fn xml_escape(text: &str) -> (escaped: String)
    ensures
        escaped@ == xml_escaped(text@),
{
    let chars = to_chars(text);
    let mut escaped = String::new();
    let mut i: usize = 0;
    while i < chars.len()
        invariant
            chars@ == text@,
            i <= chars@.len(),
            escaped@ == xml_escaped(text@.take(i as int)),
        decreases chars@.len() - i,
    {
        proof {
            assert(text@.take(i + 1).drop_last() =~= text@.take(i as int));
        }
        let c = chars[i];
        if c == '&' {
            escaped.append("&amp;");
        } else if c == '<' {
            escaped.append("&lt;");
        } else if c == '>' {
            escaped.append("&gt;");
        } else if c == '"' {
            escaped.append("&quot;");
        } else if c == '\'' {
            escaped.append("&apos;");
        } else {
            let piece = text.substring_char(i, i + 1);
            proof {
                assert(text@.subrange(i as int, i + 1) =~= seq![c]);
            }
            escaped.append(piece);
        }
        i += 1;
    }
    proof {
        assert(text@.take(i as int) =~= text@);
    }
    escaped
}

} // verus!
