//! What reading and printing have to do with each other.

use vstd::prelude::*;

use crate::quux::numeral::decimal;
use crate::quux::numeral::fits_i32;
use crate::quux::numeral::int_value;
use crate::quux::numeral::is_canonical;
use crate::quux::numeral::is_digit;
use crate::quux::numeral::lemma_canonical_writes_back;
use crate::quux::numeral::lemma_decimal_reads_back;
use crate::quux::numeral::lemma_digits_of;
use crate::quux::printer::joined;
use crate::quux::printer::text_of;
use crate::quux::reader::atom_of;
use crate::quux::reader::classified;
use crate::quux::reader::closer_char;
use crate::quux::reader::closer_for;
use crate::quux::reader::form_at;
use crate::quux::reader::is_meta_prefix;
use crate::quux::reader::items_at;
use crate::quux::reader::lemma_form_advances;
use crate::quux::reader::lemma_items_advance;
use crate::quux::reader::list_at;
use crate::quux::reader::prefix_name;
use crate::quux::reader::tokens_of;
use crate::quux::step1_repl::reprinted;
use crate::quux::types::Form;
use crate::quux::Fault;

verus! {

/// What stands between two neighbouring tokens in normalized text: nothing
/// after an opening delimiter or before a closing one, else one blank.
pub open spec fn gap(prev: Seq<char>, next: Seq<char>) -> Seq<char> {
    if closer_for(prev) is Some || closer_char(next) is Some {
        Seq::empty()
    } else {
        " "@
    }
}

/// The normalized text of the tokens from `from` up to `to`.
pub open spec fn spaced(ts: Seq<Seq<char>>, from: nat, to: nat) -> Seq<char>
    decreases to,
{
    if to <= from || to > ts.len() {
        Seq::empty()
    } else if to == from + 1 {
        ts[from as int]
    } else {
        spaced(ts, from, (to - 1) as nat) + gap(ts[to - 2], ts[to - 1]) + ts[to - 1]
    }
}

/// A token that reads and prints as itself: no reader macro, and no
/// numeral with a leading zero or a negative zero.
pub open spec fn is_plain(t: Seq<char>) -> bool {
    &&& prefix_name(t) is None
    &&& !is_meta_prefix(t)
    &&& int_value(t) is Some ==> is_canonical(t)
}

/// Whether the tokens from `from` up to `to` are all plain.
pub open spec fn all_plain(ts: Seq<Seq<char>>, from: nat, to: nat) -> bool {
    forall|k: int| from <= k < to ==> is_plain(#[trigger] ts[k])
}

/// The six delimiters are six different tokens, three of each sort.
proof fn lemma_delimiters()
    ensures
        forall|t: Seq<char>| #[trigger]
            closer_for(t) is Some ==> closer_char(t) is None && closer_char(closer_for(t)->0)
                is Some && closer_for(closer_for(t)->0) is None,
        forall|t: Seq<char>| #[trigger] closer_char(t) is Some ==> closer_for(t) is None,
        ")"@ != "]"@,
        ")"@ != "}"@,
        "]"@ != "}"@,
{
    reveal_strlit("(");
    reveal_strlit(")");
    reveal_strlit("[");
    reveal_strlit("]");
    reveal_strlit("{");
    reveal_strlit("}");
    assert("("@[0] == '(' && ")"@[0] == ')');
    assert("["@[0] == '[' && "]"@[0] == ']');
    assert("{"@[0] == '{' && "}"@[0] == '}');
}

/// Normalized text can be cut between any two of its tokens.
proof fn lemma_spaced_split(ts: Seq<Seq<char>>, from: nat, mid: nat, to: nat)
    requires
        from < mid < to <= ts.len(),
    ensures
        spaced(ts, from, to) == spaced(ts, from, mid) + gap(ts[mid - 1], ts[mid as int]) + spaced(
            ts,
            mid,
            to,
        ),
    decreases to,
{
    if to == mid + 1 {
        assert(spaced(ts, mid, to) == ts[mid as int]);
    } else {
        lemma_spaced_split(ts, from, mid, (to - 1) as nat);
        let a = spaced(ts, from, mid);
        let g = gap(ts[mid - 1], ts[mid as int]);
        let b = spaced(ts, mid, (to - 1) as nat);
        let h = gap(ts[to - 2], ts[to - 1]);
        let c = ts[to - 1];
        assert(spaced(ts, from, to) == (a + g + b) + h + c);
        assert(spaced(ts, mid, to) == b + h + c);
        assert((a + g + b) + h + c =~= a + g + (b + h + c));
    }
}

/// Joining can start from the first item as well as end with the last.
proof fn lemma_joined_prepend(f: Form, rest: Seq<Form>, n: nat)
    requires
        1 <= n <= rest.len(),
    ensures
        joined(seq![f] + rest, n + 1) == text_of(f) + " "@ + joined(rest, n),
    decreases n,
{
    let all = seq![f] + rest;
    assert(all[0] == f);
    assert(all[n as int] == rest[n - 1]);
    if n == 1 {
        assert(joined(all, 1) == text_of(f));
        assert(joined(all, 2) == joined(all, 1) + " "@ + text_of(all[1]));
    } else {
        lemma_joined_prepend(f, rest, (n - 1) as nat);
        let a = text_of(f);
        let b = joined(rest, (n - 1) as nat);
        let c = text_of(rest[n - 1]);
        assert(joined(all, n + 1) == joined(all, n) + " "@ + c);
        assert(joined(rest, n) == b + " "@ + c);
        assert((a + " "@ + b) + " "@ + c =~= a + " "@ + (b + " "@ + c));
    }
}

/// A plain token that reads as an atom prints as itself.
proof fn lemma_atom_text(t: Seq<char>)
    requires
        atom_of(t) is Ok,
        is_plain(t),
    ensures
        text_of(atom_of(t)->Ok_0) == t,
{
    if atom_of(t)->Ok_0 is Int {
        lemma_canonical_writes_back(t);
    }
}

/// The law for one form, with what the induction needs of its first and
/// last token.
proof fn lemma_form_text(ts: Seq<Seq<char>>, pos: nat)
    requires
        form_at(ts, pos).outcome is Ok,
        all_plain(ts, pos, form_at(ts, pos).end),
    ensures
        pos < form_at(ts, pos).end <= ts.len(),
        text_of(form_at(ts, pos).outcome->Ok_0) == spaced(ts, pos, form_at(ts, pos).end),
        closer_char(ts[pos as int]) is None,
        closer_for(ts[form_at(ts, pos).end - 1]) is None,
    decreases ts.len() - pos, 2nat,
{
    lemma_form_advances(ts, pos);
    lemma_delimiters();
    let t = ts[pos as int];
    let end = form_at(ts, pos).end;
    assert(is_plain(t));
    if closer_for(t) is Some {
        let c = closer_for(t)->0;
        assert(form_at(ts, pos) == list_at(ts, pos, c));
        let items = items_at(ts, pos + 1, c);
        lemma_items_advance(ts, pos + 1, c);
        lemma_items_text(ts, pos + 1, c);
        let forms = items.outcome->Ok_0;
        let inner = joined(forms, forms.len());
        assert(ts[end - 1] == c);
        assert(text_of(form_at(ts, pos).outcome->Ok_0) == t + inner + c);
        if forms.len() == 0 {
            assert(end == pos + 2);
            assert(spaced(ts, pos, end) == spaced(ts, pos, (end - 1) as nat) + gap(t, c) + c);
            assert(t + inner + c =~= t + gap(t, c) + c);
        } else {
            let last = (end - 1) as nat;
            lemma_spaced_split(ts, pos, pos + 1, last);
            assert(spaced(ts, pos, end) == spaced(ts, pos, last) + gap(ts[end - 2], c) + c);
            assert(spaced(ts, pos, pos + 1) == t);
            assert(t + inner + c =~= (t + gap(t, ts[(pos + 1) as int]) + inner) + gap(ts[end - 2], c) + c);
        }
    } else {
        lemma_atom_text(t);
    }
}

/// The law for the items of a collection, up to its closing delimiter.
proof fn lemma_items_text(ts: Seq<Seq<char>>, pos: nat, closer: Seq<char>)
    requires
        items_at(ts, pos, closer).outcome is Ok,
        all_plain(ts, pos, (items_at(ts, pos, closer).end - 1) as nat),
        closer_char(closer) is Some,
    ensures
        pos < items_at(ts, pos, closer).end <= ts.len(),
        ts[items_at(ts, pos, closer).end - 1] == closer,
        ({
            let forms = items_at(ts, pos, closer).outcome->Ok_0;
            let stop = (items_at(ts, pos, closer).end - 1) as nat;
            if forms.len() == 0 {
                stop == pos
            } else {
                &&& pos < stop
                &&& joined(forms, forms.len()) == spaced(ts, pos, stop)
                &&& closer_char(ts[pos as int]) is None
                &&& closer_for(ts[stop - 1]) is None
            }
        }),
    decreases ts.len() - pos, 3nat,
{
    lemma_items_advance(ts, pos, closer);
    if ts[pos as int] != closer {
        let first = form_at(ts, pos);
        lemma_form_advances(ts, pos);
        let f = first.outcome->Ok_0;
        let rest = items_at(ts, first.end, closer);
        lemma_items_advance(ts, first.end, closer);
        let more = rest.outcome->Ok_0;
        let forms = seq![f] + more;
        let stop = (rest.end - 1) as nat;
        assert(items_at(ts, pos, closer).outcome->Ok_0 == forms);
        lemma_form_text(ts, pos);
        lemma_items_text(ts, first.end, closer);
        if more.len() == 0 {
            assert(forms =~= seq![f]);
            assert(joined(forms, 1) == text_of(forms[0]));
        } else {
            lemma_joined_prepend(f, more, more.len());
            lemma_spaced_split(ts, pos, first.end, stop);
            assert(gap(ts[first.end - 1], ts[first.end as int]) == " "@);
        }
    }
}

/// An integer prints as its canonical numeral, and that numeral, taken for
/// an integer, reads as the same integer: negative ones too.
pub proof fn lemma_integer_round_trip(i: int, is_string: bool)
    requires
        fits_i32(i),
    ensures
        text_of(Form::Int(i)) == decimal(i),
        is_plain(decimal(i)),
        classified(decimal(i), true, is_string) == Ok::<Form, Fault>(Form::Int(i)),
{
    lemma_decimal_reads_back(i);
    let t = decimal(i);
    assert(t[0] == '-' || is_digit(t[0])) by {
        if i >= 0 {
            lemma_digits_of(i as nat);
        }
    }
    reveal_strlit("nil");
    reveal_strlit("true");
    reveal_strlit("false");
    reveal_strlit("'");
    reveal_strlit("`");
    reveal_strlit("~");
    reveal_strlit("~@");
    reveal_strlit("@");
    reveal_strlit("^");
    assert("nil"@[0] == 'n' && "true"@[0] == 't' && "false"@[0] == 'f');
    assert("'"@[0] == '\'' && "`"@[0] == '`' && "~"@[0] == '~' && "~@"@[0] == '~');
    assert("@"@[0] == '@' && "^"@[0] == '^');
}

/// Reading then printing normalizes: where the tokens of a form hold no
/// reader macro and no numeral with a needless zero, the printed text of
/// the form that was read is those tokens, one blank between neighbours
/// and none inside a delimiter.
pub proof fn lemma_print_of_read_is_normalized(ts: Seq<Seq<char>>, pos: nat)
    requires
        form_at(ts, pos).outcome is Ok,
        all_plain(ts, pos, form_at(ts, pos).end),
    ensures
        text_of(form_at(ts, pos).outcome->Ok_0) == spaced(ts, pos, form_at(ts, pos).end),
{
    lemma_form_text(ts, pos);
}

/// The same of a whole line: where its first form reads, from tokens that
/// hold no reader macro and no numeral with a needless zero, the line comes
/// back as the normalized text of that form's tokens.
pub proof fn lemma_reprint_is_normalized(text: Seq<char>)
    ensures
        tokens_of(text) matches Some(ts) ==> (form_at(ts, 0).outcome is Ok && all_plain(
            ts,
            0,
            form_at(ts, 0).end,
        ) ==> reprinted(text) == Ok::<Seq<char>, Fault>(spaced(ts, 0, form_at(ts, 0).end))),
{
    if tokens_of(text) is Some {
        let ts = tokens_of(text)->0;
        if form_at(ts, 0).outcome is Ok && all_plain(ts, 0, form_at(ts, 0).end) {
            lemma_form_text(ts, 0);
        }
    }
}

} // verus!
