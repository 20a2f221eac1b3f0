//! The output formatter: renders aggregated records as a JSON array with
//! stable field names, or recognized strings as plain text lines. The JSON
//! grammar produced here — escaping included — is stated character by
//! character, so the report's exact shape is part of the contract.

use vstd::prelude::*;
use vstd::string::StrSliceExecFns;
use vstd::string::StringExecFns;

use crate::digits::{dec_digits, dec_int, digit_char, push_dec_i32, push_dec_u32};
use crate::model::{RecordView, Region, TextRecord};
use crate::model::views_of;
use crate::text::{chars_to_string, str_to_chars};

verus! {

/// Lower-case hexadecimal digit character.
pub open spec fn hex_char(d: nat) -> char
    recommends
        d < 16,
{
    if d < 10 {
        (48 + d) as char
    } else {
        (87 + d) as char
    }
}

/// JSON escaping of one character: quote, backslash and the common control
/// characters get two-character escapes, other control characters a
/// `\u00..` escape, and everything else stands for itself.
pub open spec fn escape_char(c: char) -> Seq<char> {
    if c == '"' {
        seq!['\\', '"']
    } else if c == '\\' {
        seq!['\\', '\\']
    } else if c == '\n' {
        seq!['\\', 'n']
    } else if c == '\r' {
        seq!['\\', 'r']
    } else if c == '\t' {
        seq!['\\', 't']
    } else if (c as u32) < 32 {
        seq!['\\', 'u', '0', '0', hex_char((c as u32 / 16) as nat), hex_char((c as u32 % 16) as nat)]
    } else {
        seq![c]
    }
}

/// JSON escaping of a whole character sequence.
pub open spec fn escape_seq(s: Seq<char>) -> Seq<char>
    decreases s.len(),
{
    if s.len() == 0 {
        Seq::empty()
    } else {
        escape_seq(s.drop_last()) + escape_char(s.last())
    }
}

/// A JSON string literal: the escaped text between double quotes.
pub open spec fn json_of_text(s: Seq<char>) -> Seq<char> {
    seq!['"'] + escape_seq(s) + seq!['"']
}

/// The JSON object for one region's position.
pub open spec fn json_of_region(r: Region) -> Seq<char> {
    "{\"left\":"@ + dec_int(r.left as int) + ",\"top\":"@ + dec_int(r.top as int) + ",\"width\":"@
        + dec_digits(r.width as nat) + ",\"height\":"@ + dec_digits(r.height as nat) + "}"@
}

/// The confidence in thousandths rendered as a JSON number: `1.0` for the
/// full default, else `0.` and three digits.
pub open spec fn conf_chars(p: u32) -> Seq<char>
    recommends
        p <= 1000,
{
    if p == 1000 {
        "1.0"@
    } else {
        "0."@ + seq![
            digit_char(((p / 100) % 10) as nat),
            digit_char(((p / 10) % 10) as nat),
            digit_char((p % 10) as nat),
        ]
    }
}

/// The JSON object for one record.
pub open spec fn json_of_record(r: RecordView) -> Seq<char> {
    "{\"text\":"@ + json_of_text(r.text) + ",\"confidence\":"@ + conf_chars(r.confidence_permille)
        + ",\"position\":"@ + json_of_region(r.position) + "}"@
}

/// The comma-separated record objects, in order.
pub open spec fn json_items(s: Seq<RecordView>) -> Seq<char>
    decreases s.len(),
{
    if s.len() == 0 {
        Seq::empty()
    } else if s.len() == 1 {
        json_of_record(s[0])
    } else {
        json_items(s.drop_last()) + ","@ + json_of_record(s.last())
    }
}

/// The whole JSON report: an array of record objects; an empty sequence
/// renders as the empty array `[]`, never as anything else.
pub open spec fn json_of_records(s: Seq<RecordView>) -> Seq<char> {
    "["@ + json_items(s) + "]"@
}

/// The plain-text report: each string followed by one newline; an empty
/// sequence renders as the empty output.
pub open spec fn lines_of(s: Seq<Seq<char>>) -> Seq<char>
    decreases s.len(),
{
    if s.len() == 0 {
        Seq::empty()
    } else {
        lines_of(s.drop_last()) + s.last() + seq!['\n']
    }
}

/// Views of a sequence of strings.
pub open spec fn string_views(s: Seq<String>) -> Seq<Seq<char>> {
    s.map_values(|x: String| x@)
}

fn escape_chars(s: &Vec<char>) -> (r: Vec<char>)
    ensures
        r@ == escape_seq(s@),
{
    let n: usize = s.len();
    let mut r: Vec<char> = Vec::new();
    let mut i: usize = 0;
    while i < n
        invariant
            i <= n,
            n == s@.len(),
            r@ == escape_seq(s@.take(i as int)),
        decreases n - i,
    {
        let c = s[i];
        let u = c as u32;
        if c == '"' {
            r.push('\\');
            r.push('"');
        } else if c == '\\' {
            r.push('\\');
            r.push('\\');
        } else if c == '\n' {
            r.push('\\');
            r.push('n');
        } else if c == '\r' {
            r.push('\\');
            r.push('r');
        } else if c == '\t' {
            r.push('\\');
            r.push('t');
        } else if u < 32 {
            r.push('\\');
            r.push('u');
            r.push('0');
            r.push('0');
            let hi = u / 16;
            let lo = u % 16;
            let hc = if hi < 10 {
                (48 + hi as u8) as char
            } else {
                (87 + hi as u8) as char
            };
            let lc = if lo < 10 {
                (48 + lo as u8) as char
            } else {
                (87 + lo as u8) as char
            };
            r.push(hc);
            r.push(lc);
        } else {
            r.push(c);
        }
        i = i + 1;
        proof {
            assert(s@.take(i as int).drop_last() =~= s@.take(i as int - 1));
            assert(s@.take(i as int).last() == s@[i as int - 1]);
            assert(r@ =~= escape_seq(s@.take(i as int)));
        }
    }
    proof {
        assert(s@.take(n as int) =~= s@);
    }
    r
}

fn dec_i32_string(n: i32) -> (s: String)
    ensures
        s@ == dec_int(n as int),
{
    let mut v: Vec<char> = Vec::new();
    push_dec_i32(&mut v, n);
    chars_to_string(&v)
}

fn dec_u32_string(n: u32) -> (s: String)
    ensures
        s@ == dec_digits(n as nat),
{
    let mut v: Vec<char> = Vec::new();
    push_dec_u32(&mut v, n);
    chars_to_string(&v)
}

/// Renders one region's position object.
pub fn render_region(r: Region) -> (s: String)
    ensures
        s@ == json_of_region(r),
{
    let mut s = String::from_str("{\"left\":");
    s.append(dec_i32_string(r.left).as_str());
    s.append(",\"top\":");
    s.append(dec_i32_string(r.top).as_str());
    s.append(",\"width\":");
    s.append(dec_u32_string(r.width).as_str());
    s.append(",\"height\":");
    s.append(dec_u32_string(r.height).as_str());
    s.append("}");
    proof {
        assert(s@ =~= json_of_region(r));
    }
    s
}

fn conf_string(p: u32) -> (s: String)
    requires
        p <= 1000,
    ensures
        s@ == conf_chars(p),
{
    if p == 1000 {
        String::from_str("1.0")
    } else {
        let mut v: Vec<char> = Vec::new();
        v.push((48 + ((p / 100) % 10) as u8) as char);
        v.push((48 + ((p / 10) % 10) as u8) as char);
        v.push((48 + (p % 10) as u8) as char);
        let mut s = String::from_str("0.");
        s.append(chars_to_string(&v).as_str());
        proof {
            assert(v@ =~= seq![
                digit_char(((p / 100) % 10) as nat),
                digit_char(((p / 10) % 10) as nat),
                digit_char((p % 10) as nat),
            ]);
        }
        s
    }
}

/// Renders one record as its JSON object.
pub fn render_record(r: &TextRecord) -> (s: String)
    requires
        r@.confidence_permille <= 1000,
    ensures
        s@ == json_of_record(r@),
{
    let text_chars = str_to_chars(r.text.as_str());
    let escaped = escape_chars(&text_chars);
    let mut s = String::from_str("{\"text\":\"");
    s.append(chars_to_string(&escaped).as_str());
    s.append("\",\"confidence\":");
    s.append(conf_string(r.confidence_permille).as_str());
    s.append(",\"position\":");
    s.append(render_region(r.position).as_str());
    s.append("}");
    proof {
        reveal_strlit("{\"text\":");
        reveal_strlit("{\"text\":\"");
        reveal_strlit("\",\"confidence\":");
        reveal_strlit(",\"confidence\":");
        reveal_strlit("\"");
        assert(("{\"text\":\"")@ =~= ("{\"text\":")@ + seq!['"']);
        assert(("\",\"confidence\":")@ =~= seq!['"'] + (",\"confidence\":")@);
        assert(s@ =~= json_of_record(r@));
    }
    s
}

/// Renders the whole structured report: a JSON array of the records, in
/// order; no records renders as exactly `[]`.
pub fn render_records_json(records: &Vec<TextRecord>) -> (s: String)
    requires
        forall|k: int| 0 <= k < records@.len() ==> (#[trigger] records@[k]@).confidence_permille
            <= 1000,
    ensures
        s@ == json_of_records(views_of(records@)),
{
    let mut s = String::from_str("[");
    let n: usize = records.len();
    let mut i: usize = 0;
    while i < n
        invariant
            i <= n,
            n == records@.len(),
            forall|k: int| 0 <= k < records@.len() ==> (#[trigger] records@[k]@).confidence_permille
                <= 1000,
            s@ == "["@ + json_items(views_of(records@).take(i as int)),
        decreases n - i,
    {
        if i > 0 {
            s.append(",");
        }
        let item = render_record(&records[i]);
        s.append(item.as_str());
        i = i + 1;
        proof {
            let v = views_of(records@);
            assert(v.take(i as int).drop_last() =~= v.take(i as int - 1));
            assert(v.take(i as int).last() == v[i as int - 1]);
            assert(v[i as int - 1] == records@[i as int - 1]@);
            assert(s@ =~= "["@ + json_items(v.take(i as int)));
        }
    }
    s.append("]");
    proof {
        assert(views_of(records@).take(n as int) =~= views_of(records@));
        assert(s@ =~= json_of_records(views_of(records@)));
    }
    s
}

/// Renders the plain-text report: one recognized string per line, in
/// order; no strings renders as the empty output.
pub fn render_text_lines(lines: &Vec<String>) -> (s: String)
    ensures
        s@ == lines_of(string_views(lines@)),
{
    let mut s = String::new();
    let n: usize = lines.len();
    let mut i: usize = 0;
    while i < n
        invariant
            i <= n,
            n == lines@.len(),
            s@ == lines_of(string_views(lines@).take(i as int)),
        decreases n - i,
    {
        s.append(lines[i].as_str());
        s.append("\n");
        i = i + 1;
        proof {
            reveal_strlit("\n");
            let v = string_views(lines@);
            assert(v.take(i as int).drop_last() =~= v.take(i as int - 1));
            assert(v.take(i as int).last() == v[i as int - 1]);
            assert(v[i as int - 1] == lines@[i as int - 1]@);
            assert(("\n")@ =~= seq!['\n']);
            assert(s@ =~= lines_of(v.take(i as int)));
        }
    }
    proof {
        assert(string_views(lines@).take(n as int) =~= string_views(lines@));
    }
    s
}

} // verus!
