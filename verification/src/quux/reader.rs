//! The reader: text to tokens, tokens to a value.

use vstd::prelude::*;

use crate::quux::numeral::fits_i32;
use crate::quux::numeral::int_value;
use crate::quux::numeral::parse_int;
use crate::quux::pattern::group_texts;
use crate::quux::pattern::is_match;
use crate::quux::pattern::regex_group_texts;
use crate::quux::pattern::regex_is_match;
use crate::quux::text::same_text;
use crate::quux::text::starts_with_char;
use crate::quux::types::forms_of;
use crate::quux::types::Form;
use crate::quux::types::MalType;
use crate::quux::outcome;
use crate::quux::Fault;
use crate::quux::MalErr;
use crate::quux::MalResult;

verus! {

/// One lexical unit, after any blanks and commas: the splice marker, a
/// punctuation character, a string literal, a comment, or a run of other
/// characters. Its first group captures the unit without the blanks.
pub const TOKEN_PATTERN: &'static str =
    r###"[\s,]*(~@|[\[\]{}()'`~^@]|"(?:\\.|[^\\"])*"?|;.*|[^\s\[\]{}('"`,;)]*)"###;

/// The group of `TOKEN_PATTERN` that holds the token.
pub const TOKEN_GROUP: usize = 1;

/// Whether a captured text is a token: comments and empty captures are not.
pub open spec fn is_token(found: Option<Seq<char>>) -> bool {
    found matches Some(t) && t.len() > 0 && t[0] != ';'
}

/// The tokens among the captured texts, in their order.
pub open spec fn kept_tokens(found: Seq<Option<Seq<char>>>) -> Seq<Seq<char>>
    decreases found.len(),
{
    if found.len() == 0 {
        Seq::empty()
    } else if is_token(found.last()) {
        kept_tokens(found.drop_last()).push(found.last()->0)
    } else {
        kept_tokens(found.drop_last())
    }
}

/// The tokens of a text; `None` where the token pattern is rejected.
pub open spec fn tokens_of(text: Seq<char>) -> Option<Seq<Seq<char>>> {
    match regex_group_texts(TOKEN_PATTERN@, TOKEN_GROUP as nat, text) {
        Some(found) => Some(kept_tokens(found)),
        None => None,
    }
}

/// No comment and no empty text is among the tokens that are kept.
pub proof fn lemma_kept_tokens_are_tokens(found: Seq<Option<Seq<char>>>)
    ensures
        forall|i: int|
            0 <= i < kept_tokens(found).len() ==> is_token(Some(#[trigger] kept_tokens(found)[i])),
    decreases found.len(),
{
    if found.len() > 0 {
        lemma_kept_tokens_are_tokens(found.drop_last());
        let before = kept_tokens(found.drop_last());
        assert forall|i: int| 0 <= i < kept_tokens(found).len() implies is_token(
            Some(#[trigger] kept_tokens(found)[i]),
        ) by {
            if i < before.len() {
                assert(kept_tokens(found)[i] == before[i]);
            }
        }
    }
}

/// Keeps the tokens among what the token pattern captured: drops comments
/// and empty captures.
pub fn select_tokens(found: Vec<Option<String>>) -> (tokens: Vec<String>)
    ensures
        tokens.deep_view() == kept_tokens(found.deep_view()),
        forall|i: int| 0 <= i < tokens.len() ==> is_token(Some(#[trigger] tokens[i]@)),
{
    let mut tokens: Vec<String> = Vec::new();
    let mut i: usize = 0;
    while i < found.len()
        invariant
            i <= found.len(),
            tokens.deep_view() == kept_tokens(found.deep_view().take(i as int)),
        decreases found.len() - i,
    {
        let ghost before = found.deep_view().take(i as int);
        let ghost after = found.deep_view().take(i + 1);
        assert(after.drop_last() =~= before);
        assert(after.last() == found[i as int].deep_view());
        match &found[i] {
            Some(t) => {
                if !t.as_str().is_empty() && !starts_with_char(t.as_str(), ';') {
                    let ghost old_tokens = tokens.deep_view();
                    tokens.push(t.clone());
                    assert(tokens.deep_view() =~= old_tokens.push(t@));
                }
            },
            None => {},
        }
        i += 1;
    }
    assert(found.deep_view().take(i as int) =~= found.deep_view());
    proof {
        lemma_kept_tokens_are_tokens(found.deep_view());
        assert forall|i: int| 0 <= i < tokens.len() implies is_token(Some(#[trigger] tokens[i]@)) by {
            assert(tokens.deep_view()[i] == tokens[i]@);
        }
    }
    tokens
}

/// Splits a text into its tokens: no comment among them, and none empty.
/// Fails only where the token pattern is rejected.
pub fn tokenize(expr: &str) -> (r: Result<Vec<String>, MalErr>)
    ensures
        match r {
            Ok(tokens) => {
                &&& tokens_of(expr@) == Some(tokens.deep_view())
                &&& forall|i: int| 0 <= i < tokens.len() ==> is_token(Some(#[trigger] tokens[i]@))
            },
            Err(e) => e@ == Fault::InternalError && tokens_of(expr@) is None,
        },
{
    match group_texts(TOKEN_PATTERN, TOKEN_GROUP, expr) {
        Ok(found) => Ok(select_tokens(found)),
        Err(_) => Err(MalErr::InternalError),
    }
}

/// A whole token that is an integer numeral.
pub const INT_PATTERN: &'static str = r"^-?[0-9]+$";

/// A double-quoted string literal with its closing quote.
pub const STRING_PATTERN: &'static str = r#""(?:\\.|[^\\"])*""#;

/// The head symbol that a one-form reader macro puts before its form.
pub open spec fn prefix_name(t: Seq<char>) -> Option<Seq<char>> {
    if t == "'"@ {
        Some("quote"@)
    } else if t == "`"@ {
        Some("quasiquote"@)
    } else if t == "~"@ {
        Some("unquote"@)
    } else if t == "~@"@ {
        Some("splice-unquote"@)
    } else if t == "@"@ {
        Some("deref"@)
    } else {
        None
    }
}

/// The reader macro that takes two forms.
pub open spec fn is_meta_prefix(t: Seq<char>) -> bool {
    t == "^"@
}

/// The character of a closing delimiter.
pub open spec fn closer_char(t: Seq<char>) -> Option<char> {
    if t == ")"@ {
        Some(')')
    } else if t == "]"@ {
        Some(']')
    } else if t == "}"@ {
        Some('}')
    } else {
        None
    }
}

/// The closing delimiter that matches an opening one.
pub open spec fn closer_for(t: Seq<char>) -> Option<Seq<char>> {
    if t == "("@ {
        Some(")"@)
    } else if t == "["@ {
        Some("]"@)
    } else if t == "{"@ {
        Some("}"@)
    } else {
        None
    }
}

/// The collection that a closing delimiter ends, around the given items.
pub open spec fn collection(closer: Seq<char>, items: Seq<Form>) -> Result<Form, Fault> {
    if closer == ")"@ {
        Ok(Form::List(items))
    } else if closer == "]"@ {
        Ok(Form::Vector(items))
    } else if closer == "}"@ {
        Ok(Form::HashMap(items))
    } else {
        Err(Fault::InternalError)
    }
}

/// The atom that a token writes, given what the two atom patterns said of
/// it. A numeral whose number does not fit in 32 bits, or that is no
/// numeral after all, is an internal error.
pub open spec fn classified(t: Seq<char>, is_int: bool, is_string: bool) -> Result<Form, Fault> {
    if t == "nil"@ {
        Ok(Form::Nil)
    } else if t == "true"@ {
        Ok(Form::Bool(true))
    } else if t == "false"@ {
        Ok(Form::Bool(false))
    } else if is_int {
        match int_value(t) {
            Some(v) => if fits_i32(v) {
                Ok(Form::Int(v))
            } else {
                Err(Fault::InternalError)
            },
            None => Err(Fault::InternalError),
        }
    } else if is_string {
        Ok(Form::Str(t))
    } else {
        Ok(Form::Symbol(t))
    }
}

/// The atom that a token writes. The string pattern is asked only of a
/// token that the integer pattern did not match; a rejected pattern is an
/// internal error.
pub open spec fn atom_of(t: Seq<char>) -> Result<Form, Fault> {
    if t == "nil"@ || t == "true"@ || t == "false"@ {
        classified(t, false, false)
    } else {
        match regex_is_match(INT_PATTERN@, t) {
            None => Err(Fault::InternalError),
            Some(true) => classified(t, true, false),
            Some(false) => match regex_is_match(STRING_PATTERN@, t) {
                None => Err(Fault::InternalError),
                Some(is_string) => classified(t, false, is_string),
            },
        }
    }
}

/// What reading one form gives, and the position after it.
pub struct Reading {
    pub outcome: Result<Form, Fault>,
    pub end: nat,
}

/// What reading the items of a collection gives, and the position after it.
pub struct Readings {
    pub outcome: Result<Seq<Form>, Fault>,
    pub end: nat,
}

/// The items read so far, put before what the rest of a collection gives.
pub open spec fn after_items(items: Seq<Form>, rest: Readings) -> Readings {
    Readings {
        outcome: match rest.outcome {
            Ok(more) => Ok(items + more),
            Err(e) => Err(e),
        },
        end: rest.end,
    }
}

/// A form under a head symbol: what a reader macro expands to.
pub open spec fn under_head(name: Seq<char>, forms: Seq<Form>) -> Form {
    Form::List(seq![Form::Symbol(name)] + forms)
}

/// Where reading goes on after a form that began at `pos` and ended at
/// `end`. A form that was read ends after where it began and no further
/// than the tokens go (`lemma_form_advances`), so this is `end`; it is
/// written out so that the definitions below plainly move forward.
pub open spec fn onward(ts: Seq<Seq<char>>, pos: nat, end: nat) -> nat {
    if pos < end <= ts.len() {
        end
    } else {
        ts.len()
    }
}

/// The form that starts at a position of the tokens, and where it ends. A
/// failure leaves the position where it was found.
pub open spec fn form_at(ts: Seq<Seq<char>>, pos: nat) -> Reading
    decreases ts.len() - pos, 2nat,
{
    if pos >= ts.len() {
        Reading { outcome: Err(Fault::EmptyInput), end: pos }
    } else {
        let t = ts[pos as int];
        if prefix_name(t) is Some {
            let inner = form_at(ts, pos + 1);
            match inner.outcome {
                Ok(f) => Reading { outcome: Ok(under_head(prefix_name(t)->0, seq![f])), end: inner.end },
                Err(e) => inner,
            }
        } else if is_meta_prefix(t) {
            let first = form_at(ts, pos + 1);
            match first.outcome {
                Ok(m) => {
                    let second = form_at(ts, onward(ts, pos, first.end));
                    match second.outcome {
                        Ok(o) => Reading { outcome: Ok(under_head("meta"@, seq![m, o])), end: second.end },
                        Err(e) => second,
                    }
                },
                Err(e) => first,
            }
        } else if closer_char(t) is Some {
            Reading { outcome: Err(Fault::UnexpectedCloser(closer_char(t)->0)), end: pos }
        } else if closer_for(t) is Some {
            list_at(ts, pos, closer_for(t)->0)
        } else {
            Reading { outcome: atom_of(t), end: pos + 1 }
        }
    }
}

/// The collection whose opening delimiter is at a position, up to the
/// given closing delimiter.
pub open spec fn list_at(ts: Seq<Seq<char>>, pos: nat, closer: Seq<char>) -> Reading
    decreases ts.len() - pos, 1nat,
{
    if pos >= ts.len() {
        Reading { outcome: Err(Fault::UnterminatedCollection), end: pos + 1 }
    } else {
        let items = items_at(ts, pos + 1, closer);
        Reading {
            outcome: match items.outcome {
                Ok(forms) => collection(closer, forms),
                Err(e) => Err(e),
            },
            end: items.end,
        }
    }
}

/// The forms from a position up to the closing delimiter, which is taken too.
pub open spec fn items_at(ts: Seq<Seq<char>>, pos: nat, closer: Seq<char>) -> Readings
    decreases ts.len() - pos, 3nat,
{
    if pos >= ts.len() {
        Readings { outcome: Err(Fault::UnterminatedCollection), end: pos }
    } else if ts[pos as int] == closer {
        Readings { outcome: Ok(Seq::empty()), end: pos + 1 }
    } else {
        let first = form_at(ts, pos);
        match first.outcome {
            Ok(f) => after_items(seq![f], items_at(ts, onward(ts, pos, first.end), closer)),
            Err(e) => Readings { outcome: Err(e), end: first.end },
        }
    }
}

/// A form that was read took at least one token, and no more than there are.
pub proof fn lemma_form_advances(ts: Seq<Seq<char>>, pos: nat)
    ensures
        form_at(ts, pos).outcome is Ok ==> pos < form_at(ts, pos).end <= ts.len(),
    decreases ts.len() - pos, 2nat,
{
    if pos < ts.len() {
        let t = ts[pos as int];
        if prefix_name(t) is Some {
            lemma_form_advances(ts, pos + 1);
        } else if is_meta_prefix(t) {
            lemma_form_advances(ts, pos + 1);
            let first = form_at(ts, pos + 1);
            if first.outcome is Ok {
                lemma_form_advances(ts, first.end);
            }
        } else if closer_char(t) is Some {
        } else if closer_for(t) is Some {
            lemma_items_advance(ts, pos + 1, closer_for(t)->0);
            assert(form_at(ts, pos) == list_at(ts, pos, closer_for(t)->0));
        } else {
        }
    }
}

/// The items of a collection that was read took at least its closing delimiter.
pub proof fn lemma_items_advance(ts: Seq<Seq<char>>, pos: nat, closer: Seq<char>)
    ensures
        items_at(ts, pos, closer).outcome is Ok ==> pos < items_at(ts, pos, closer).end <= ts.len(),
    decreases ts.len() - pos, 3nat,
{
    if pos < ts.len() && ts[pos as int] != closer {
        lemma_form_advances(ts, pos);
        let first = form_at(ts, pos);
        if first.outcome is Ok {
            lemma_items_advance(ts, first.end, closer);
        }
    }
}

/// A cursor over a sequence of tokens.
#[derive(Debug)]
pub struct Reader {
    pub tokens: Vec<String>,
    pub pos: usize,
}

/// The token at a position, if there is one.
pub open spec fn token_at(texts: Seq<Seq<char>>, pos: nat) -> Option<Seq<char>> {
    if pos < texts.len() {
        Some(texts[pos as int])
    } else {
        None
    }
}

/// The two operations of a cursor over tokens.
pub trait ReaderOps {
    /// The tokens under the cursor, each as its characters.
    spec fn texts(&self) -> Seq<Seq<char>>;

    /// How many tokens the cursor has passed.
    spec fn position(&self) -> nat;

    /// Returns the token at the current position and moves one position on,
    /// whether or not there was a token.
    fn next(&mut self) -> (found: Option<String>)
        requires
            old(self).position() < usize::MAX,
        ensures
            final(self).texts() == old(self).texts(),
            final(self).position() == old(self).position() + 1,
            found.deep_view() == token_at(old(self).texts(), old(self).position()),
    ;

    /// Returns the token at the current position and stays there.
    fn peek(&self) -> (found: Option<String>)
        ensures
            found.deep_view() == token_at(self.texts(), self.position()),
    ;
}

impl Reader {
    /// A cursor at the first of the given tokens.
    pub fn new(tokens: Vec<String>) -> (reader: Reader)
        ensures
            reader.tokens == tokens,
            reader.pos == 0,
    {
        Reader { tokens, pos: 0 }
    }
}

impl ReaderOps for Reader {
    open spec fn texts(&self) -> Seq<Seq<char>> {
        self.tokens.deep_view()
    }

    open spec fn position(&self) -> nat {
        self.pos as nat
    }

    fn next(&mut self) -> (found: Option<String>)
        ensures
            final(self).tokens == old(self).tokens,
    {
        let found = if self.pos < self.tokens.len() {
            Some(self.tokens[self.pos].clone())
        } else {
            None
        };
        self.pos += 1;
        found
    }

    fn peek(&self) -> (found: Option<String>) {
        if self.pos < self.tokens.len() {
            Some(self.tokens[self.pos].clone())
        } else {
            None
        }
    }
}

/// The head symbol of a one-form reader macro, if the token is one.
fn prefix_symbol(t: &str) -> (name: Option<&'static str>)
    ensures
        match name {
            Some(n) => prefix_name(t@) == Some(n@),
            None => prefix_name(t@) is None,
        },
{
    if same_text(t, "'") {
        Some("quote")
    } else if same_text(t, "`") {
        Some("quasiquote")
    } else if same_text(t, "~") {
        Some("unquote")
    } else if same_text(t, "~@") {
        Some("splice-unquote")
    } else if same_text(t, "@") {
        Some("deref")
    } else {
        None
    }
}

/// The character of the token, if it is a closing delimiter.
fn closing_char(t: &str) -> (c: Option<char>)
    ensures
        c == closer_char(t@),
{
    if same_text(t, ")") {
        Some(')')
    } else if same_text(t, "]") {
        Some(']')
    } else if same_text(t, "}") {
        Some('}')
    } else {
        None
    }
}

/// The closing delimiter for the token, if it is an opening one.
fn closing_for(t: &str) -> (closer: Option<&'static str>)
    ensures
        match closer {
            Some(c) => closer_for(t@) == Some(c@),
            None => closer_for(t@) is None,
        },
{
    if same_text(t, "(") {
        Some(")")
    } else if same_text(t, "[") {
        Some("]")
    } else if same_text(t, "{") {
        Some("}")
    } else {
        None
    }
}

/// Reads the text and gives the first form in it.
pub open spec fn form_of_text(text: Seq<char>) -> Result<Form, Fault> {
    match tokens_of(text) {
        Some(ts) => form_at(ts, 0).outcome,
        None => Err(Fault::InternalError),
    }
}

/// Reads the first form of a text. What follows that form is not looked at.
pub fn read_str(expr: &str) -> (r: MalResult)
    ensures
        outcome(r) == form_of_text(expr@),
{
    match tokenize(expr) {
        Ok(tokens) => {
            let mut reader = Reader::new(tokens);
            read_form(&mut reader)
        },
        Err(e) => Err(e),
    }
}

/// Reads one form at the cursor and leaves the cursor after it; on failure
/// the cursor stays where the failure was found.
pub fn read_form(reader: &mut Reader) -> (r: MalResult)
    ensures
        final(reader).tokens == old(reader).tokens,
        final(reader).pos == form_at(old(reader).texts(), old(reader).pos as nat).end,
        outcome(r) == form_at(old(reader).texts(), old(reader).pos as nat).outcome,
    decreases old(reader).tokens.len() - old(reader).pos, 2nat,
{
    let ghost ts = reader.texts();
    let ghost pos = reader.pos as nat;
    let token = match reader.peek() {
        Some(token) => token,
        None => {
            return Err(MalErr::EmptyInput);
        },
    };
    let t = token.as_str();
    if let Some(name) = prefix_symbol(t) {
        reader.next();
        match read_form(reader) {
            Ok(form) => {
                let head = vec![MalType::symbol(name)];
                assert(forms_of(head@).push(form@) =~= seq![Form::Symbol(name@)] + seq![form@]);
                Ok(MalType::continuous_list(head, form))
            },
            Err(e) => Err(e),
        }
    } else if same_text(t, "^") {
        reader.next();
        match read_form(reader) {
            Ok(meta) => {
                proof {
                    lemma_form_advances(ts, pos + 1);
                }
                match read_form(reader) {
                    Ok(object) => {
                        let head = vec![MalType::symbol("meta"), meta];
                        assert(forms_of(head@).push(object@) =~= seq![Form::Symbol("meta"@)] + seq![
                            meta@,
                            object@,
                        ]);
                        Ok(MalType::continuous_list(head, object))
                    },
                    Err(e) => Err(e),
                }
            },
            Err(e) => Err(e),
        }
    } else if let Some(c) = closing_char(t) {
        Err(MalErr::UnexpectedCloser(c))
    } else if let Some(closer) = closing_for(t) {
        assert(form_at(ts, pos) == list_at(ts, pos, closer@));
        read_list(reader, closer)
    } else {
        read_atom(reader)
    }
}

/// Reads a collection: passes the opening delimiter at the cursor, reads
/// forms up to the closing delimiter `end`, passes that too, and wraps the
/// forms as `end` says: `)` a list, `]` a vector, `}` a hash map. Any other
/// `end` is an internal error, found once the forms are read.
pub fn read_list(reader: &mut Reader, end: &str) -> (r: MalResult)
    requires
        old(reader).pos < usize::MAX,
    ensures
        final(reader).tokens == old(reader).tokens,
        final(reader).pos == list_at(old(reader).texts(), old(reader).pos as nat, end@).end,
        outcome(r) == list_at(old(reader).texts(), old(reader).pos as nat, end@).outcome,
    decreases old(reader).tokens.len() - old(reader).pos, 1nat,
{
    let ghost ts = reader.texts();
    let ghost start = reader.pos as nat;
    let mut ast: Vec<MalType> = Vec::new();
    reader.next();
    if reader.pos > reader.tokens.len() {
        // There was no opening delimiter to pass, and there is nothing after.
        return Err(MalErr::UnterminatedCollection);
    }
    assert(after_items(forms_of(ast@), items_at(ts, reader.pos as nat, end@)) == items_at(
        ts,
        start + 1,
        end@,
    )) by {
        let rest = items_at(ts, reader.pos as nat, end@);
        if rest.outcome is Ok {
            assert(forms_of(ast@) + rest.outcome->Ok_0 =~= rest.outcome->Ok_0);
        }
    }
    loop
        invariant_except_break
            reader.tokens == old(reader).tokens,
            ts == old(reader).texts(),
            start == old(reader).pos,
            start < ts.len(),
            start < reader.pos <= reader.tokens.len(),
            after_items(forms_of(ast@), items_at(ts, reader.pos as nat, end@)) == items_at(
                ts,
                start + 1,
                end@,
            ),
        ensures
            reader.tokens == old(reader).tokens,
            ts == old(reader).texts(),
            start == old(reader).pos,
            start < ts.len(),
            reader.pos < reader.tokens.len(),
            items_at(ts, start + 1, end@) == (Readings {
                outcome: Ok(forms_of(ast@)),
                end: (reader.pos + 1) as nat,
            }),
        decreases reader.tokens.len() - reader.pos,
    {
        let ghost here = reader.pos as nat;
        let ghost so_far = forms_of(ast@);
        let token = match reader.peek() {
            Some(token) => token,
            None => {
                return Err(MalErr::UnterminatedCollection);
            },
        };
        if same_text(token.as_str(), end) {
            assert(so_far + Seq::<Form>::empty() =~= so_far);
            break;
        }
        proof {
            lemma_form_advances(ts, here);
        }
        match read_form(reader) {
            Ok(form) => {
                ast.push(form);
                proof {
                    let rest = items_at(ts, reader.pos as nat, end@);
                    assert(forms_of(ast@) =~= so_far.push(form@));
                    if rest.outcome is Ok {
                        let more = rest.outcome->Ok_0;
                        assert(so_far + (seq![form@] + more) =~= so_far.push(form@) + more);
                    }
                }
            },
            Err(e) => {
                return Err(e);
            },
        }
    }
    reader.next();
    if same_text(end, ")") {
        Ok(MalType::completed_list(ast))
    } else if same_text(end, "]") {
        Ok(MalType::vector(ast))
    } else if same_text(end, "}") {
        Ok(MalType::hash_map(ast))
    } else {
        Err(MalErr::InternalError)
    }
}

/// The atom that a token writes, once the two atom patterns have been
/// asked: `nil`, `true` and `false` first, then an integer where `is_int`,
/// then a string where `is_string`, else a symbol.
pub fn classify(token: &str, is_int: bool, is_string: bool) -> (r: MalResult)
    ensures
        outcome(r) == classified(token@, is_int, is_string),
{
    if same_text(token, "nil") {
        Ok(MalType::nil())
    } else if same_text(token, "true") {
        Ok(MalType::bool(true))
    } else if same_text(token, "false") {
        Ok(MalType::bool(false))
    } else if is_int {
        match parse_int(token) {
            Some(i) => Ok(MalType::Int(i)),
            None => Err(MalErr::InternalError),
        }
    } else if is_string {
        Ok(MalType::string(token))
    } else {
        Ok(MalType::symbol(token))
    }
}

/// The atom that a token writes.
pub fn atom_from(token: &str) -> (r: MalResult)
    ensures
        outcome(r) == atom_of(token@),
{
    if same_text(token, "nil") || same_text(token, "true") || same_text(token, "false") {
        return classify(token, false, false);
    }
    let is_int = match is_match(INT_PATTERN, token) {
        Ok(found) => found,
        Err(_) => {
            return Err(MalErr::InternalError);
        },
    };
    if is_int {
        return classify(token, true, false);
    }
    match is_match(STRING_PATTERN, token) {
        Ok(is_string) => classify(token, false, is_string),
        Err(_) => Err(MalErr::InternalError),
    }
}

/// Takes the token at the cursor and reads it as an atom. That there is no
/// token is an internal error: the caller has looked before.
pub fn read_atom(reader: &mut Reader) -> (r: MalResult)
    requires
        old(reader).pos < usize::MAX,
    ensures
        final(reader).tokens == old(reader).tokens,
        final(reader).pos == old(reader).pos + 1,
        outcome(r) == match token_at(old(reader).texts(), old(reader).pos as nat) {
            Some(t) => atom_of(t),
            None => Err(Fault::InternalError),
        },
{
    match reader.next() {
        Some(token) => atom_from(token.as_str()),
        None => Err(MalErr::InternalError),
    }
}

} // verus!