//! Encoding assembled records as a tabular text buffer: one header row
//! naming the ten fields, one data row per record, comma separated, with a
//! field quoted and its quotes doubled whenever it holds a comma, a quote
//! or a line break.

use vstd::prelude::*;
use vstd::string::*;
use crate::notes::AnkiNote;

verus! {

/// Characters that force a field into quotes.
pub open spec fn is_csv_special(c: char) -> bool {
    c == ',' || c == '"' || c == '\n' || c == '\r'
}

pub open spec fn field_needs_quoting(s: Seq<char>) -> bool {
    exists|i: int| 0 <= i < s.len() && is_csv_special(#[trigger] s[i])
}

/// The field's text with every quote character doubled.
pub open spec fn escape_quotes(s: Seq<char>) -> Seq<char>
    decreases s.len(),
{
    if s.len() == 0 {
        Seq::empty()
    } else {
        escape_quotes(s.drop_last()) + (if s.last() == '"' {
            seq!['"', '"']
        } else {
            seq![s.last()]
        })
    }
}

/// A field as written: quoted and escaped when needed, bare otherwise.
pub open spec fn encode_field(s: Seq<char>) -> Seq<char> {
    if field_needs_quoting(s) {
        seq!['"'] + escape_quotes(s) + seq!['"']
    } else {
        s
    }
}

/// An absent optional field is written empty.
pub open spec fn opt_field(o: Option<String>) -> Seq<char> {
    match o {
        Some(s) => s@,
        None => Seq::empty(),
    }
}

/// One record as one data row, terminated by a line feed.
pub open spec fn encode_row(n: AnkiNote) -> Seq<char> {
    encode_field(n.sound@) + seq![','] + encode_field(n.time@) + seq![','] + encode_field(
        n.source@,
    ) + seq![','] + encode_field(n.image@) + seq![','] + encode_field(opt_field(n.foreign_curr))
        + seq![','] + encode_field(opt_field(n.native_curr)) + seq![','] + encode_field(
        opt_field(n.foreign_prev),
    ) + seq![','] + encode_field(opt_field(n.native_prev)) + seq![','] + encode_field(
        opt_field(n.foreign_next),
    ) + seq![','] + encode_field(opt_field(n.native_next)) + seq!['\n']
}

/// The fixed header row naming the ten columns, in import order.
pub open spec fn csv_header() -> Seq<char> {
    "sound,time,source,image,foreign_curr,native_curr,foreign_prev,native_prev,foreign_next,native_next\n"@
}

pub open spec fn encode_rows(notes: Seq<AnkiNote>) -> Seq<char>
    decreases notes.len(),
{
    if notes.len() == 0 {
        Seq::empty()
    } else {
        encode_rows(notes.drop_last()) + encode_row(notes.last())
    }
}

/// The whole buffer: header first, then every record's row in order.
pub open spec fn csv_text(notes: Seq<AnkiNote>) -> Seq<char> {
    csv_header() + encode_rows(notes)
}

fn is_csv_special_x(c: char) -> (b: bool)
    ensures
        b == is_csv_special(c),
{
    match c {
        ',' | '"' | '\n' | '\r' => true,
        _ => false,
    }
}

fn field_needs_quoting_x(s: &str) -> (b: bool)
    ensures
        b == field_needs_quoting(s@),
{
    let n = s.unicode_len();
    let mut i: usize = 0;
    while i < n && !is_csv_special_x(s.get_char(i))
        invariant
            i <= n,
            n == s@.len(),
            forall|j: int| 0 <= j < i ==> !is_csv_special(#[trigger] s@[j]),
        decreases n - i,
    {
        i = i + 1;
    }
    i < n
}

/// Relies on String::push: appends exactly the given character.
#[verifier::external_body]
fn push_char(out: &mut String, c: char)
    ensures
        final(out)@ == old(out)@.push(c),
{
    out.push(c);
}

/// Appends one encoded field to the buffer.
fn append_field(out: &mut String, s: &str)
    ensures
        final(out)@ == old(out)@ + encode_field(s@),
{
    let ghost base = old(out)@;
    if field_needs_quoting_x(s) {
        out.append("\"");
        proof {
            reveal_strlit("\"");
            assert(out@ =~= base + seq!['"']);
        }
        let n = s.unicode_len();
        let mut i: usize = 0;
        while i < n
            invariant
                i <= n,
                n == s@.len(),
                out@ == base + seq!['"'] + escape_quotes(s@.subrange(0, i as int)),
            decreases n - i,
        {
            let c = s.get_char(i);
            if c == '"' {
                out.append("\"\"");
                proof {
                    reveal_strlit("\"\"");
                    assert("\"\""@ =~= seq!['"', '"']);
                }
            } else {
                push_char(out, c);
            }
            proof {
                assert(s@.subrange(0, i + 1).drop_last() =~= s@.subrange(0, i as int));
                assert(s@.subrange(0, i + 1).last() == s@[i as int]);
                assert(out@ =~= base + seq!['"'] + escape_quotes(s@.subrange(0, i + 1)));
            }
            i = i + 1;
        }
        out.append("\"");
        proof {
            reveal_strlit("\"");
            assert(s@.subrange(0, n as int) =~= s@);
            assert(out@ =~= base + encode_field(s@));
        }
    } else {
        out.append(s);
    }
}

/// Appends an optional field: absent fields are written empty.
fn append_opt_field(out: &mut String, o: &Option<String>)
    ensures
        final(out)@ == old(out)@ + encode_field(opt_field(*o)),
{
    match o.as_ref() {
        Some(s) => append_field(out, s.as_str()),
        None => {
            proof {
                assert(out@ =~= out@ + encode_field(opt_field(*o)));
            }
        },
    }
}

/// Appends one record's data row.
fn append_row(out: &mut String, n: &AnkiNote)
    ensures
        final(out)@ == old(out)@ + encode_row(*n),
{
    let ghost base = old(out)@;
    let ghost mut acc: Seq<char> = Seq::empty();
    append_field(out, n.sound.as_str());
    proof {
        acc = encode_field(n.sound@);
    }
    append_comma(out);
    proof {
        assert(out@ =~= base + (acc + seq![',']));
        acc = acc + seq![','];
    }
    append_field(out, n.time.as_str());
    proof {
        assert(out@ =~= base + (acc + encode_field(n.time@)));
        acc = acc + encode_field(n.time@);
    }
    append_comma(out);
    proof {
        assert(out@ =~= base + (acc + seq![',']));
        acc = acc + seq![','];
    }
    append_field(out, n.source.as_str());
    proof {
        assert(out@ =~= base + (acc + encode_field(n.source@)));
        acc = acc + encode_field(n.source@);
    }
    append_comma(out);
    proof {
        assert(out@ =~= base + (acc + seq![',']));
        acc = acc + seq![','];
    }
    append_field(out, n.image.as_str());
    proof {
        assert(out@ =~= base + (acc + encode_field(n.image@)));
        acc = acc + encode_field(n.image@);
    }
    append_comma(out);
    proof {
        assert(out@ =~= base + (acc + seq![',']));
        acc = acc + seq![','];
    }
    append_opt_field(out, &n.foreign_curr);
    proof {
        assert(out@ =~= base + (acc + encode_field(opt_field(n.foreign_curr))));
        acc = acc + encode_field(opt_field(n.foreign_curr));
    }
    append_comma(out);
    proof {
        assert(out@ =~= base + (acc + seq![',']));
        acc = acc + seq![','];
    }
    append_opt_field(out, &n.native_curr);
    proof {
        assert(out@ =~= base + (acc + encode_field(opt_field(n.native_curr))));
        acc = acc + encode_field(opt_field(n.native_curr));
    }
    append_comma(out);
    proof {
        assert(out@ =~= base + (acc + seq![',']));
        acc = acc + seq![','];
    }
    append_opt_field(out, &n.foreign_prev);
    proof {
        assert(out@ =~= base + (acc + encode_field(opt_field(n.foreign_prev))));
        acc = acc + encode_field(opt_field(n.foreign_prev));
    }
    append_comma(out);
    proof {
        assert(out@ =~= base + (acc + seq![',']));
        acc = acc + seq![','];
    }
    append_opt_field(out, &n.native_prev);
    proof {
        assert(out@ =~= base + (acc + encode_field(opt_field(n.native_prev))));
        acc = acc + encode_field(opt_field(n.native_prev));
    }
    append_comma(out);
    proof {
        assert(out@ =~= base + (acc + seq![',']));
        acc = acc + seq![','];
    }
    append_opt_field(out, &n.foreign_next);
    proof {
        assert(out@ =~= base + (acc + encode_field(opt_field(n.foreign_next))));
        acc = acc + encode_field(opt_field(n.foreign_next));
    }
    append_comma(out);
    proof {
        assert(out@ =~= base + (acc + seq![',']));
        acc = acc + seq![','];
    }
    append_opt_field(out, &n.native_next);
    proof {
        assert(out@ =~= base + (acc + encode_field(opt_field(n.native_next))));
        acc = acc + encode_field(opt_field(n.native_next));
    }
    out.append("\n");
    proof {
        reveal_strlit("\n");
        assert("\n"@ =~= seq!['\n']);
        assert(out@ =~= base + (acc + seq!['\n']));
        assert(acc + seq!['\n'] == encode_row(*n));
    }
}

fn append_comma(out: &mut String)
    ensures
        final(out)@ == old(out)@ + seq![','],
{
    out.append(",");
    proof {
        reveal_strlit(",");
        assert(out@ =~= old(out)@ + seq![',']);
    }
}

/// Encodes the whole deck: the header row, then one row per record.
pub fn encode_csv(notes: &Vec<AnkiNote>) -> (r: String)
    ensures
        r@ == csv_text(notes@),
{
    let mut out = String::from_str(
        "sound,time,source,image,foreign_curr,native_curr,foreign_prev,native_prev,foreign_next,native_next\n",
    );
    let n = notes.len();
    let mut j: usize = 0;
    while j < n
        invariant
            j <= n,
            n == notes@.len(),
            out@ == csv_header() + encode_rows(notes@.subrange(0, j as int)),
        decreases n - j,
    {
        append_row(&mut out, &notes[j]);
        proof {
            assert(notes@.subrange(0, j + 1).drop_last() =~= notes@.subrange(0, j as int));
            assert(notes@.subrange(0, j + 1).last() == notes@[j as int]);
            assert(out@ =~= csv_header() + encode_rows(notes@.subrange(0, j + 1)));
        }
        j = j + 1;
    }
    proof {
        assert(notes@.subrange(0, n as int) =~= notes@);
    }
    out
}

} // verus!
