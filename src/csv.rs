//! CSV text after RFC 4180: commas between fields, a line feed after each
//! row, and quotes around the fields that need them.
use crate::json::{comma_joined, texts};
use crate::numeral::chars_of;
use vstd::prelude::*;

verus! {

/// A character that makes a field need quotes.
pub open spec fn csv_special(c: char) -> bool {
    c == ',' || c == '"' || c == '\n' || c == '\r'
}

/// Whether the field holds a comma, a double quote, a carriage return or a
/// line feed.
pub open spec fn needs_quotes(s: Seq<char>) -> bool {
    exists|i: int| 0 <= i < s.len() && csv_special(#[trigger] s[i])
}

/// The field with each double quote doubled.
pub open spec fn doubled_quotes(s: Seq<char>) -> Seq<char>
    decreases s.len(),
{
    if s.len() == 0 {
        Seq::empty()
    } else if s.last() == '"' {
        doubled_quotes(s.drop_last()) + seq!['"', '"']
    } else {
        doubled_quotes(s.drop_last()).push(s.last())
    }
}

/// A field as CSV writes it: quoted, with doubled quotes, where it needs
/// quotes; as it is otherwise.
pub open spec fn csv_field(s: Seq<char>) -> Seq<char> {
    if needs_quotes(s) {
        seq!['"'] + doubled_quotes(s) + seq!['"']
    } else {
        s
    }
}

/// One row: its fields joined by commas, then a line feed.
pub open spec fn csv_line(fields: Seq<Seq<char>>) -> Seq<char> {
    comma_joined(fields.map_values(|f: Seq<char>| csv_field(f))) + seq!['\n']
}

/// All rows, one line each.
pub open spec fn csv_lines(rows: Seq<Seq<Seq<char>>>) -> Seq<char>
    decreases rows.len(),
{
    if rows.len() == 0 {
        Seq::empty()
    } else {
        csv_lines(rows.drop_last()) + csv_line(rows.last())
    }
}

/// Doubling the quotes of a field without quotes leaves it as it is.
proof fn lemma_no_quotes(s: Seq<char>)
    requires
        forall|i: int| 0 <= i < s.len() ==> s[i] != '"',
    ensures
        doubled_quotes(s) == s,
    decreases s.len(),
{
    if s.len() > 0 {
        let p = s.drop_last();
        assert forall|i: int| 0 <= i < p.len() implies p[i] != '"' by {
            assert(p[i] == s[i]);
        }
        lemma_no_quotes(p);
        assert(p.push(s.last()) =~= s);
    }
}

/// A field without a comma, a double quote, a carriage return or a line
/// feed is written as it is; any other is put in double quotes, with each
/// double quote inside doubled, and one with no double quote inside keeps
/// its characters.
pub proof fn lemma_csv_field(s: Seq<char>)
    ensures
        !needs_quotes(s) ==> csv_field(s) == s,
        needs_quotes(s) ==> csv_field(s) == seq!['"'] + doubled_quotes(s) + seq!['"'],
        needs_quotes(s) && (forall|i: int| 0 <= i < s.len() ==> s[i] != '"') ==> csv_field(s)
            == seq!['"'] + s + seq!['"'],
{
    if forall|i: int| 0 <= i < s.len() ==> s[i] != '"' {
        lemma_no_quotes(s);
    }
}

/// Whether some character of `s` makes it need quotes.
fn has_special(s: &Vec<char>) -> (r: bool)
    ensures
        r == needs_quotes(s@),
{
    let mut i: usize = 0;
    while i < s.len()
        invariant
            i <= s@.len(),
            forall|j: int| 0 <= j < i ==> !csv_special(#[trigger] s@[j]),
        decreases s@.len() - i,
    {
        let c = s[i];
        if c == ',' || c == '"' || c == '\n' || c == '\r' {
            return true;
        }
        i += 1;
    }
    false
}

/// Appends the field as CSV writes it.
pub fn push_field(out: &mut Vec<char>, field: &str)
    ensures
        final(out)@ == old(out)@ + csv_field(field@),
{
    let s = chars_of(field);
    if has_special(&s) {
        out.push('"');
        let ghost start = out@;
        let mut i: usize = 0;
        while i < s.len()
            invariant
                i <= s@.len(),
                out@ == start + doubled_quotes(s@.take(i as int)),
            decreases s@.len() - i,
        {
            assert(s@.take(i + 1).drop_last() =~= s@.take(i as int));
            if s[i] == '"' {
                out.push('"');
                out.push('"');
            } else {
                out.push(s[i]);
            }
            i += 1;
            assert(out@ =~= start + doubled_quotes(s@.take(i as int)));
        }
        assert(s@.take(i as int) =~= s@);
        out.push('"');
        assert(out@ =~= old(out)@ + csv_field(field@));
    } else {
        let ghost start = out@;
        let mut i: usize = 0;
        while i < s.len()
            invariant
                i <= s@.len(),
                out@ == start + s@.take(i as int),
            decreases s@.len() - i,
        {
            out.push(s[i]);
            i += 1;
            assert(out@ =~= start + s@.take(i as int));
        }
        assert(s@.take(i as int) =~= s@);
    }
}

/// Appends one row: the fields joined by commas, then a line feed.
pub fn push_line(out: &mut Vec<char>, fields: &Vec<String>)
    ensures
        final(out)@ == old(out)@ + csv_line(texts(fields@)),
{
    let ghost start = out@;
    let ghost encoded = texts(fields@).map_values(|f: Seq<char>| csv_field(f));
    let mut i: usize = 0;
    while i < fields.len()
        invariant
            i <= fields@.len(),
            encoded == texts(fields@).map_values(|f: Seq<char>| csv_field(f)),
            out@ == start + comma_joined(encoded.take(i as int)),
        decreases fields@.len() - i,
    {
        assert(encoded.take(i + 1).drop_last() =~= encoded.take(i as int));
        if i > 0 {
            out.push(',');
        }
        push_field(out, fields[i].as_str());
        i += 1;
        assert(out@ =~= start + comma_joined(encoded.take(i as int)));
    }
    assert(encoded.take(i as int) =~= encoded);
    out.push('\n');
    assert(out@ =~= start + csv_line(texts(fields@)));
}

} // verus!
