//! Reading the canonical text of a filter gives the filter back.
//!
//! The canonical text is what `BoolOp::to_string` writes. The law holds for
//! the filters that a text can stand for: a comparison of the alarm state
//! is a comparison with a state, and a comparison of another number field
//! is a comparison with a number. Every filter that is read from a text is
//! such a filter, so what is read is read again from its canonical text.
use crate::alarm_filter::{
    doubled, doubled_char, lemma_doubled_front, lemma_doubled_plain, lemma_name_letters,
    lemma_state_name_round_trip, AlarmState, BoolExpr, IntCriterion, StringCriterion,
};
use crate::alarm_filter::parser::{
    alpha_len, digit_len, equality_operator, has_at, int_field, int_operator, is_alpha, is_space,
    joined, literal_body, mismatch, remaining, spec_and, spec_and_tail, spec_arg, spec_criterion,
    spec_filter, spec_int_criterion, spec_not, spec_number, spec_or, spec_or_tail,
    spec_parenthesis, spec_state_criterion, spec_string_criterion, spec_string_literal,
    string_field, with_tail, ws_len, Comparison, ErrorKind, FilterOutcome, Outcome, TailOutcome,
};
use crate::text::{decimal_digits, decimal_text, is_digit, lemma_decimal_digits};
use vstd::prelude::*;

verus! {

impl BoolExpr {
    /// Whether the filter is one that a text can stand for: every
    /// comparison is one that the filter language has.
    pub open spec fn canonical(self) -> bool
        decreases self,
    {
        match self {
            BoolExpr::Not(a) => a.canonical(),
            BoolExpr::And(a, b) => a.canonical() && b.canonical(),
            BoolExpr::Or(a, b) => a.canonical() && b.canonical(),
            BoolExpr::StringEqual(_, _) => true,
            BoolExpr::StateEqual(c, _) => c == IntCriterion::AlarmState,
            BoolExpr::IntEqual(c, _) => c != IntCriterion::AlarmState,
            BoolExpr::IntLess(c, _) => c != IntCriterion::AlarmState,
            BoolExpr::IntLessEqual(c, _) => c != IntCriterion::AlarmState,
        }
    }
}

/// The text ends at `p`, or a closing parenthesis stands there.
pub open spec fn closes(s: Seq<char>, p: int) -> bool {
    p == s.len() || (0 <= p < s.len() && s[p] == ')')
}

proof fn lemma_has_at_index(s: Seq<char>, pos: int, t: Seq<char>, i: int)
    requires
        has_at(s, pos, t),
        0 <= i < t.len(),
    ensures
        s[pos + i] == t[i],
        0 <= pos + i < s.len(),
{
    assert(s.subrange(pos, pos + t.len())[i] == s[pos + i]);
}

proof fn lemma_has_at_intro(s: Seq<char>, pos: int, t: Seq<char>)
    requires
        0 <= pos,
        pos + t.len() <= s.len(),
        forall|i: int| 0 <= i < t.len() ==> s[pos + i] == #[trigger] t[i],
    ensures
        has_at(s, pos, t),
{
    assert(s.subrange(pos, pos + t.len()) =~= t);
}

proof fn lemma_has_at_split(s: Seq<char>, pos: int, a: Seq<char>, b: Seq<char>)
    requires
        has_at(s, pos, a + b),
    ensures
        has_at(s, pos, a),
        has_at(s, pos + a.len(), b),
{
    let t = a + b;
    assert forall|i: int| 0 <= i < a.len() implies s[pos + i] == #[trigger] a[i] by {
        lemma_has_at_index(s, pos, t, i);
    }
    lemma_has_at_intro(s, pos, a);
    assert forall|i: int| 0 <= i < b.len() implies s[pos + a.len() + i] == #[trigger] b[i] by {
        lemma_has_at_index(s, pos, t, a.len() + i);
    }
    lemma_has_at_intro(s, pos + a.len(), b);
}

/// A text that does not start with the first character of a word does not
/// start with the word.
proof fn lemma_not_at(s: Seq<char>, pos: int, t: Seq<char>)
    requires
        t.len() > 0,
        pos >= s.len() || pos < 0 || s[pos] != t[0],
    ensures
        !has_at(s, pos, t),
{
    if has_at(s, pos, t) {
        lemma_has_at_index(s, pos, t, 0);
    }
}

/// White space ends where a character stands that is none.
proof fn lemma_ws_run(s: Seq<char>, pos: int, n: nat)
    requires
        0 <= pos,
        pos + n <= s.len(),
        forall|i: int| pos <= i < pos + n ==> is_space(#[trigger] s[i]),
        pos + n == s.len() || !is_space(s[pos + n]),
    ensures
        ws_len(s, pos) == n,
    decreases n,
{
    if n > 0 {
        assert(is_space(s[pos]));
        lemma_ws_run(s, pos + 1, (n - 1) as nat);
    }
}

/// Letters end where a character stands that is none.
proof fn lemma_alpha_run(s: Seq<char>, pos: int, n: nat)
    requires
        0 <= pos,
        pos + n <= s.len(),
        forall|i: int| pos <= i < pos + n ==> is_alpha(#[trigger] s[i]),
        pos + n == s.len() || !is_alpha(s[pos + n]),
    ensures
        alpha_len(s, pos) == n,
    decreases n,
{
    if n > 0 {
        assert(is_alpha(s[pos]));
        lemma_alpha_run(s, pos + 1, (n - 1) as nat);
    }
}

/// Digits end where a character stands that is none.
proof fn lemma_digit_run(s: Seq<char>, pos: int, n: nat)
    requires
        0 <= pos,
        pos + n <= s.len(),
        forall|i: int| pos <= i < pos + n ==> is_digit(#[trigger] s[i]),
        pos + n == s.len() || !is_digit(s[pos + n]),
    ensures
        digit_len(s, pos) == n,
    decreases n,
{
    if n > 0 {
        assert(is_digit(s[pos]));
        lemma_digit_run(s, pos + 1, (n - 1) as nat);
    }
}

/// `not` reads the expression `e` of `n` characters at `pos`.
#[verifier::opaque]
pub open spec fn reads_not(s: Seq<char>, pos: int, e: BoolExpr, n: nat) -> bool {
    spec_not(s, pos) == (Outcome::Done { value: e, len: n })
}

/// `or` reads the expression `e` of `n` characters at `pos`.
#[verifier::opaque]
pub open spec fn reads_or(s: Seq<char>, pos: int, e: BoolExpr, n: nat) -> bool {
    spec_or(s, pos) == (Outcome::Done { value: e, len: n })
}

/// Where the text closes, no further operand follows.
proof fn lemma_tails_stop(s: Seq<char>, p: int, acc: Option<BoolExpr>)
    requires
        0 <= p,
        closes(s, p),
    ensures
        spec_and_tail(s, p, acc) == (TailOutcome::Done { value: acc, next: p }),
        spec_or_tail(s, p, acc) == (TailOutcome::Done { value: acc, next: p }),
        ws_len(s, p) == 0,
{
    reveal_strlit("AND");
    reveal_strlit("OR");
    lemma_ws_run(s, p, 0);
    lemma_not_at(s, p, "AND"@);
    lemma_not_at(s, p, "OR"@);
}

/// An operand that reaches to where the text closes is all that `or`
/// reads.
proof fn lemma_single_operand(s: Seq<char>, pos: int, e: BoolExpr, n: nat)
    requires
        0 <= pos,
        reads_not(s, pos, e, n),
        closes(s, pos + n),
    ensures
        reads_or(s, pos, e, n),
{
    reveal(reads_not);
    reveal(reads_or);
    lemma_tails_stop(s, pos + n, None);
}

/// An expression in parentheses is read as an operand.
proof fn lemma_parenthesized(s: Seq<char>, pos: int, e: BoolExpr, n: nat)
    requires
        0 <= pos < s.len(),
        s[pos] == '(',
        reads_or(s, pos + 1, e, n),
        pos + 1 + n < s.len(),
        s[pos + 1 + n] == ')',
    ensures
        reads_not(s, pos, e, n + 2),
        spec_arg(s, pos) == (Outcome::Done { value: e, len: n + 2 }),
{
    reveal(reads_not);
    reveal(reads_or);
    reveal_strlit("(");
    reveal_strlit(")");
    reveal_strlit("NOT");
    lemma_has_at_intro(s, pos, "("@);
    lemma_has_at_intro(s, pos + 1 + n, ")"@);
    lemma_not_at(s, pos, "NOT"@);
}

/// The inside of a quoted literal, with its quotes doubled, is read as the
/// text that it stands for.
proof fn lemma_literal_body(s: Seq<char>, p: int, v: Seq<char>, acc: Seq<char>)
    requires
        has_at(s, p, doubled(v)),
        p + doubled(v).len() < s.len(),
        s[p + doubled(v).len()] == '\'',
        p + doubled(v).len() + 1 == s.len() || s[p + doubled(v).len() + 1] != '\'',
    ensures
        literal_body(s, p, acc) == (acc + v, p + doubled(v).len()),
    decreases v.len(),
{
    if v.len() == 0 {
        assert(acc + v =~= acc);
    } else {
        lemma_doubled_front(v);
        let head = doubled_char(v[0]);
        let rest = v.skip(1);
        lemma_has_at_split(s, p, head, doubled(rest));
        lemma_has_at_index(s, p, head, 0);
        if v[0] == '\'' {
            lemma_has_at_index(s, p, head, 1);
            lemma_literal_body(s, p + 2, rest, acc.push('\''));
            assert(acc.push('\'') + rest =~= acc + v);
        } else {
            lemma_literal_body(s, p + 1, rest, acc.push(s[p]));
            assert(acc.push(s[p]) + rest =~= acc + v);
        }
    }
}

/// A literal in quotes that is followed by the end of the text or a closing
/// parenthesis is read as the text that it stands for.
proof fn lemma_quoted(s: Seq<char>, p: int, v: Seq<char>)
    requires
        has_at(s, p, seq!['\''] + doubled(v) + seq!['\'']),
        closes(s, p + doubled(v).len() + 2),
    ensures
        spec_string_literal(s, p) == (Outcome::Done { value: v, len: doubled(v).len() + 2 }),
{
    reveal(spec_string_literal);
    let d = doubled(v);
    let t = seq!['\''] + d + seq!['\''];
    lemma_has_at_index(s, p, t, 0);
    lemma_has_at_index(s, p, t, d.len() as int + 1);
    lemma_has_at_split(s, p, seq!['\''] + d, seq!['\'']);
    lemma_has_at_split(s, p, seq!['\''], d);
    lemma_literal_body(s, p + 1, v, Seq::empty());
    assert(Seq::<char>::empty() + v =~= v);
}

/// What the name of a field, a comparison sign with a space on each side,
/// and a value give when they are written one after the other.
pub open spec fn comparison_text(name: Seq<char>, sign: Seq<char>, value: Seq<char>) -> Seq<char> {
    name + seq![' '] + sign + seq![' '] + value
}

/// The parts of a comparison stand where its text stands.
proof fn lemma_comparison_parts(
    s: Seq<char>,
    pos: int,
    name: Seq<char>,
    sign: Seq<char>,
    value: Seq<char>,
)
    requires
        has_at(s, pos, comparison_text(name, sign, value)),
    ensures
        has_at(s, pos, name),
        s[pos + name.len()] == ' ',
        has_at(s, pos + name.len() + 1, sign),
        s[pos + name.len() + 1 + sign.len()] == ' ',
        has_at(s, pos + name.len() + sign.len() + 2, value),
        pos + name.len() + sign.len() + 2 + value.len() <= s.len(),
        0 <= pos,
{
    let a = name + seq![' '];
    let b = a + sign;
    let c = b + seq![' '];
    lemma_has_at_split(s, pos, c, value);
    lemma_has_at_split(s, pos, b, seq![' ']);
    lemma_has_at_split(s, pos, a, sign);
    lemma_has_at_split(s, pos, name, seq![' ']);
    lemma_has_at_index(s, pos + name.len(), seq![' '], 0);
    lemma_has_at_index(s, pos + b.len(), seq![' '], 0);
}

/// The name of a field is read as a run of letters that ends at the space
/// after it.
proof fn lemma_name_run(s: Seq<char>, pos: int, name: Seq<char>)
    requires
        has_at(s, pos, name),
        forall|i: int| 0 <= i < name.len() ==> is_alpha(#[trigger] name[i]),
        pos + name.len() < s.len(),
        s[pos + name.len()] == ' ',
    ensures
        alpha_len(s, pos) == name.len(),
        s.subrange(pos, pos + name.len()) == name,
{
    assert forall|i: int| pos <= i < pos + name.len() implies is_alpha(#[trigger] s[i]) by {
        lemma_has_at_index(s, pos, name, i - pos);
    }
    lemma_alpha_run(s, pos, name.len());
}

/// The names of the text fields and the number fields are words of
/// letters, and no name is the name of two fields.
proof fn lemma_field_names()
    ensures
        forall|c: StringCriterion, i: int| 0 <= i < c.name().len() ==> is_alpha(#[trigger] c.name()[i]),
        forall|c: IntCriterion, i: int| 0 <= i < c.name().len() ==> is_alpha(#[trigger] c.name()[i]),
        forall|c: StringCriterion| string_field(#[trigger] c.name()) == Some(c),
        forall|c: StringCriterion| int_field(#[trigger] c.name()) is None,
        forall|c: IntCriterion|
            c != IntCriterion::AlarmState ==> int_field(#[trigger] c.name()) == Some(c),
        forall|c: StringCriterion| c.name().len() > 0 && (#[trigger] c.name())[0] != 'S',
        forall|c: IntCriterion|
            c != IntCriterion::AlarmState ==> c.name().len() > 1 && ((#[trigger] c.name())[0] != 'S')
                && c.name()[0] != 'N',
        forall|c: StringCriterion| c.name().len() > 1 && (#[trigger] c.name())[1] != 'O',
        IntCriterion::AlarmState.name() == "State"@,
        "State"@.len() == 5,
{
    reveal_strlit("AlarmClassName");
    reveal_strlit("Name");
    reveal_strlit("ID");
    reveal_strlit("InstanceID");
    reveal_strlit("Priority");
    reveal_strlit("State");
    assert forall|c: StringCriterion| string_field(#[trigger] c.name()) == Some(c) by {
        match c {
            StringCriterion::AlarmClassName => {},
            StringCriterion::AlarmName => {
                assert("Name"@.len() != "AlarmClassName"@.len());
            },
        }
    }
    assert forall|c: StringCriterion| int_field(#[trigger] c.name()) is None by {
        assert(c.name()[0] != "ID"@[0]);
        assert(c.name()[0] != "InstanceID"@[0]);
        assert(c.name()[0] != "Priority"@[0]);
    }
    assert forall|c: IntCriterion| c != IntCriterion::AlarmState implies int_field(
        #[trigger] c.name(),
    ) == Some(c) by {
        match c {
            IntCriterion::Id => {},
            IntCriterion::InstanceId => {
                assert("InstanceID"@.len() != "ID"@.len());
            },
            IntCriterion::Priority => {
                assert("Priority"@[0] != "ID"@[0]);
                assert("Priority"@[0] != "InstanceID"@[0]);
            },
            IntCriterion::AlarmState => {},
        }
    }
}

/// The canonical text of a comparison of a text field is read as that
/// comparison.
proof fn lemma_string_criterion(s: Seq<char>, pos: int, c: StringCriterion, v: Seq<char>)
    requires
        has_at(s, pos, BoolExpr::StringEqual(c, v).render()),
        closes(s, pos + BoolExpr::StringEqual(c, v).render().len()),
    ensures
        spec_criterion(s, pos) == (Outcome::Done {
            value: BoolExpr::StringEqual(c, v),
            len: BoolExpr::StringEqual(c, v).render().len(),
        }),
        s[pos] != '(',
        !has_at(s, pos, "NOT"@),
{
    reveal(spec_criterion);
    reveal(spec_state_criterion);
    reveal(spec_int_criterion);
    reveal(spec_string_criterion);
    reveal(spec_number);
    reveal_strlit(" = '");
    reveal_strlit("'");
    reveal_strlit("=");
    reveal_strlit("!=");
    reveal_strlit("<=");
    reveal_strlit(">=");
    reveal_strlit("<");
    reveal_strlit(">");
    reveal_strlit("NOT");
    reveal_strlit("State");
    lemma_field_names();
    let name = c.name();
    let quoted = seq!['\''] + doubled(v) + seq!['\''];
    let text = BoolExpr::StringEqual(c, v).render();
    assert(text =~= comparison_text(name, seq!['='], quoted));
    lemma_comparison_parts(s, pos, name, seq!['='], quoted);
    lemma_name_run(s, pos, name);
    let at_op = pos + name.len() + 1;
    lemma_has_at_index(s, at_op, seq!['='], 0);
    lemma_ws_run(s, pos + name.len(), 1);
    lemma_has_at_intro(s, at_op, "="@);
    lemma_not_at(s, at_op, "!="@);
    let at_val = at_op + 2;
    lemma_has_at_index(s, at_val, quoted, 0);
    lemma_ws_run(s, at_op + 1, 1);
    lemma_quoted(s, at_val, v);
    // no state criterion: the name is not the word State
    lemma_has_at_index(s, pos, name, 0);
    lemma_not_at(s, pos, "State"@);
    // no number criterion: a quote stands where the number would
    lemma_not_at(s, at_val, seq!['-']);
    lemma_not_at(s, at_val, seq!['+']);
    lemma_digit_run(s, at_val, 0);
    assert(int_operator(s, at_op) == Some((Comparison::Equal, 1nat)));
    assert(equality_operator(s, at_op) == Some((Comparison::Equal, 1nat)));
    lemma_has_at_index(s, pos, name, 1);
    if has_at(s, pos, "NOT"@) {
        lemma_has_at_index(s, pos, "NOT"@, 1);
    }
}

/// The canonical text of a comparison of the alarm state is read as that
/// comparison.
proof fn lemma_state_criterion(s: Seq<char>, pos: int, state: AlarmState)
    requires
        has_at(s, pos, BoolExpr::StateEqual(IntCriterion::AlarmState, state).render()),
        closes(s, pos + BoolExpr::StateEqual(IntCriterion::AlarmState, state).render().len()),
    ensures
        spec_criterion(s, pos) == (Outcome::Done {
            value: BoolExpr::StateEqual(IntCriterion::AlarmState, state),
            len: BoolExpr::StateEqual(IntCriterion::AlarmState, state).render().len(),
        }),
        s[pos] != '(',
        !has_at(s, pos, "NOT"@),
{
    reveal(spec_criterion);
    reveal(spec_state_criterion);
    reveal_strlit(" = '");
    reveal_strlit("'");
    reveal_strlit("=");
    reveal_strlit("!=");
    reveal_strlit("NOT");
    reveal_strlit("State");
    lemma_field_names();
    let name = "State"@;
    let v = state.name();
    let quoted = seq!['\''] + v + seq!['\''];
    let text = BoolExpr::StateEqual(IntCriterion::AlarmState, state).render();
    assert(text =~= comparison_text(name, seq!['='], quoted));
    lemma_comparison_parts(s, pos, name, seq!['='], quoted);
    let at_op = pos + 6;
    lemma_has_at_index(s, at_op, seq!['='], 0);
    lemma_ws_run(s, pos + 5, 1);
    lemma_has_at_intro(s, at_op, "="@);
    let at_val = at_op + 2;
    lemma_has_at_index(s, at_val, quoted, 0);
    lemma_ws_run(s, at_op + 1, 1);
    assert(!v.contains('\'')) by {
        if v.contains('\'') {
            let i = choose|i: int| 0 <= i < v.len() && v[i] == '\'';
            lemma_name_letters(state, i);
        }
    }
    lemma_doubled_plain(v);
    lemma_quoted(s, at_val, v);
    lemma_state_name_round_trip(state);
    assert(equality_operator(s, at_op) == Some((Comparison::Equal, 1nat)));
    lemma_has_at_index(s, pos, name, 0);
    if has_at(s, pos, "NOT"@) {
        lemma_has_at_index(s, pos, "NOT"@, 0);
    }
}

/// The signs of the comparisons that the canonical text uses.
pub open spec fn sign_text(op: Comparison) -> Seq<char> {
    match op {
        Comparison::Less => seq!['<'],
        Comparison::LessEqual => seq!['<', '='],
        _ => seq!['='],
    }
}

/// The canonical decimal text of a number fits the number that it is read
/// as.
proof fn lemma_number(s: Seq<char>, p: int, v: i32)
    requires
        has_at(s, p, decimal_text(v as int)),
        closes(s, p + decimal_text(v as int).len()),
    ensures
        spec_number(s, p) == (Outcome::Done { value: v, len: decimal_text(v as int).len() }),
{
    reveal(spec_number);
    let t = decimal_text(v as int);
    if v < 0 {
        let d = decimal_digits((-v) as nat);
        lemma_decimal_digits((-v) as nat);
        assert(t == seq!['-'] + d);
        lemma_has_at_split(s, p, seq!['-'], d);
        assert forall|i: int| p + 1 <= i < p + 1 + d.len() implies is_digit(#[trigger] s[i]) by {
            lemma_has_at_index(s, p + 1, d, i - p - 1);
        }
        lemma_digit_run(s, p + 1, d.len());
        assert(s.subrange(p + 1, p + 1 + d.len()) == d);
    } else {
        let d = decimal_digits(v as nat);
        lemma_decimal_digits(v as nat);
        assert(t == d);
        lemma_has_at_index(s, p, d, 0);
        assert(is_digit(d[0]));
        lemma_not_at(s, p, seq!['-']);
        lemma_not_at(s, p, seq!['+']);
        assert forall|i: int| p <= i < p + d.len() implies is_digit(#[trigger] s[i]) by {
            lemma_has_at_index(s, p, d, i - p);
        }
        lemma_digit_run(s, p, d.len());
        assert(s.subrange(p, p + d.len()) == d);
    }
}

/// The canonical comparison of a number field with a number, for one of
/// the three comparisons that the canonical text uses.
pub open spec fn int_expr(op: Comparison, c: IntCriterion, v: i32) -> BoolExpr {
    match op {
        Comparison::Less => BoolExpr::IntLess(c, v),
        Comparison::LessEqual => BoolExpr::IntLessEqual(c, v),
        _ => BoolExpr::IntEqual(c, v),
    }
}

/// The canonical text of a comparison of a number field is read as that
/// comparison.
proof fn lemma_int_criterion(s: Seq<char>, pos: int, op: Comparison, c: IntCriterion, v: i32)
    requires
        op == Comparison::Equal || op == Comparison::Less || op == Comparison::LessEqual,
        c != IntCriterion::AlarmState,
        has_at(s, pos, int_expr(op, c, v).render()),
        closes(s, pos + int_expr(op, c, v).render().len()),
    ensures
        spec_criterion(s, pos) == (Outcome::Done {
            value: int_expr(op, c, v),
            len: int_expr(op, c, v).render().len(),
        }),
        s[pos] != '(',
        !has_at(s, pos, "NOT"@),
{
    reveal(spec_criterion);
    reveal(spec_state_criterion);
    reveal(spec_int_criterion);
    reveal_strlit(" = ");
    reveal_strlit(" < ");
    reveal_strlit(" <= ");
    reveal_strlit("=");
    reveal_strlit("!=");
    reveal_strlit("<=");
    reveal_strlit(">=");
    reveal_strlit("<");
    reveal_strlit(">");
    reveal_strlit("NOT");
    reveal_strlit("State");
    lemma_field_names();
    let name = c.name();
    let sign = sign_text(op);
    let value = decimal_text(v as int);
    let text = int_expr(op, c, v).render();
    assert(text =~= comparison_text(name, sign, value));
    lemma_comparison_parts(s, pos, name, sign, value);
    lemma_name_run(s, pos, name);
    let at_op = pos + name.len() + 1;
    lemma_has_at_index(s, at_op, sign, 0);
    lemma_ws_run(s, pos + name.len(), 1);
    let at_val = at_op + sign.len() + 1;
    if v < 0 {
        lemma_decimal_digits((-v) as nat);
    } else {
        lemma_decimal_digits(v as nat);
    }
    lemma_has_at_index(s, at_val, value, 0);
    lemma_ws_run(s, at_op + sign.len(), 1);
    lemma_number(s, at_val, v);
    lemma_not_at(s, at_op, "!="@);
    lemma_not_at(s, at_op, ">="@);
    lemma_not_at(s, at_op, ">"@);
    match op {
        Comparison::Less => {
            lemma_not_at(s, at_op, "="@);
            if has_at(s, at_op, "<="@) {
                lemma_has_at_index(s, at_op, "<="@, 1);
            }
            lemma_has_at_intro(s, at_op, "<"@);
            assert(int_operator(s, at_op) == Some((Comparison::Less, 1nat)));
        },
        Comparison::LessEqual => {
            lemma_not_at(s, at_op, "="@);
            lemma_has_at_index(s, at_op, sign, 1);
            lemma_has_at_intro(s, at_op, "<="@);
            assert(int_operator(s, at_op) == Some((Comparison::LessEqual, 2nat)));
        },
        _ => {
            lemma_has_at_intro(s, at_op, "="@);
            assert(int_operator(s, at_op) == Some((Comparison::Equal, 1nat)));
        },
    }
    lemma_has_at_index(s, pos, name, 0);
    lemma_not_at(s, pos, "State"@);
    if has_at(s, pos, "NOT"@) {
        lemma_has_at_index(s, pos, "NOT"@, 0);
    }
}

/// A criterion that reaches to where the text closes is all that `or`
/// reads.
proof fn lemma_criterion_operand(s: Seq<char>, pos: int, e: BoolExpr, n: nat)
    requires
        0 <= pos < s.len(),
        spec_criterion(s, pos) == (Outcome::Done { value: e, len: n }),
        s[pos] != '(',
        !has_at(s, pos, "NOT"@),
        closes(s, pos + n),
    ensures
        reads_or(s, pos, e, n),
{
    reveal_strlit("(");
    lemma_not_at(s, pos, "("@);
    assert(spec_parenthesis(s, pos) == mismatch::<BoolExpr>(pos, ErrorKind::Tag));
    assert(spec_arg(s, pos) == spec_criterion(s, pos));
    assert(spec_not(s, pos) == spec_arg(s, pos));
    assert(reads_not(s, pos, e, n)) by {
        reveal(reads_not);
    }
    lemma_single_operand(s, pos, e, n);
}

/// A negation is read as the negation of its operand: the word `NOT`, a
/// space, and the operand in parentheses.
proof fn lemma_not_case(s: Seq<char>, pos: int, a: BoolExpr, na: nat)
    requires
        0 <= pos,
        has_at(s, pos, "NOT"@),
        "NOT"@.len() == 3,
        pos + 6 + na <= s.len(),
        s[pos + 3] == ' ',
        s[pos + 4] == '(',
        reads_or(s, pos + 5, a, na),
        s[pos + 5 + na] == ')',
        closes(s, pos + 6 + na),
    ensures
        reads_or(s, pos, BoolExpr::Not(Box::new(a)), na + 6),
{
    let e = BoolExpr::Not(Box::new(a));
    lemma_parenthesized(s, pos + 4, a, na);
    lemma_ws_run(s, pos + 3, 1);
    assert(reads_not(s, pos, e, na + 6)) by {
        reveal(reads_not);
    }
    lemma_single_operand(s, pos, e, na + 6);
}

/// The canonical text of a negation, and where its parts stand.
proof fn lemma_not_chars(s: Seq<char>, pos: int, a: BoolExpr)
    requires
        has_at(s, pos, BoolExpr::Not(Box::new(a)).render()),
    ensures
        0 <= pos,
        BoolExpr::Not(Box::new(a)).render().len() == a.render().len() + 6,
        pos + 6 + a.render().len() <= s.len(),
        has_at(s, pos, "NOT"@),
        "NOT"@.len() == 3,
        s[pos + 3] == ' ',
        s[pos + 4] == '(',
        has_at(s, pos + 5, a.render()),
        s[pos + 5 + a.render().len()] == ')',
{
    reveal_strlit("NOT (");
    reveal_strlit(")");
    reveal_strlit("NOT");
    let ra = a.render();
    let text = BoolExpr::Not(Box::new(a)).render();
    assert(text == "NOT ("@ + ra + ")"@);
    lemma_has_at_split(s, pos, "NOT ("@ + ra, ")"@);
    lemma_has_at_split(s, pos, "NOT ("@, ra);
    lemma_has_at_index(s, pos + 5 + ra.len(), ")"@, 0);
    lemma_has_at_index(s, pos, "NOT ("@, 0);
    lemma_has_at_index(s, pos, "NOT ("@, 1);
    lemma_has_at_index(s, pos, "NOT ("@, 2);
    lemma_has_at_index(s, pos, "NOT ("@, 3);
    lemma_has_at_index(s, pos, "NOT ("@, 4);
    lemma_has_at_intro(s, pos, "NOT"@);
}

/// Where two texts stand in parentheses with a word between them, a space
/// on each side of the word, every part stands at its place.
proof fn lemma_joined_chars(s: Seq<char>, pos: int, ra: Seq<char>, word: Seq<char>, rb: Seq<char>)
    requires
        has_at(s, pos, seq!['('] + ra + seq![')', ' '] + word + seq![' ', '('] + rb + seq![')']),
    ensures
        0 <= pos,
        pos + ra.len() + word.len() + rb.len() + 6 <= s.len(),
        s[pos] == '(',
        has_at(s, pos + 1, ra),
        s[pos + 1 + ra.len()] == ')',
        s[pos + 2 + ra.len()] == ' ',
        has_at(s, pos + 3 + ra.len(), word),
        s[pos + 3 + ra.len() + word.len()] == ' ',
        s[pos + 4 + ra.len() + word.len()] == '(',
        has_at(s, pos + 5 + ra.len() + word.len(), rb),
        s[pos + 5 + ra.len() + word.len() + rb.len()] == ')',
{
    let t1 = seq!['('] + ra;
    let t2 = t1 + seq![')', ' '];
    let t3 = t2 + word;
    let t4 = t3 + seq![' ', '('];
    let t5 = t4 + rb;
    lemma_has_at_split(s, pos, t5, seq![')']);
    lemma_has_at_split(s, pos, t4, rb);
    lemma_has_at_split(s, pos, t3, seq![' ', '(']);
    lemma_has_at_split(s, pos, t2, word);
    lemma_has_at_split(s, pos, t1, seq![')', ' ']);
    lemma_has_at_split(s, pos, seq!['('], ra);
    lemma_has_at_index(s, pos, seq!['('], 0);
    lemma_has_at_index(s, pos + t1.len(), seq![')', ' '], 0);
    lemma_has_at_index(s, pos + t1.len(), seq![')', ' '], 1);
    lemma_has_at_index(s, pos + t3.len(), seq![' ', '('], 0);
    lemma_has_at_index(s, pos + t3.len(), seq![' ', '('], 1);
    lemma_has_at_index(s, pos + t5.len(), seq![')'], 0);
}

/// The canonical text of a conjunction or a disjunction.
proof fn lemma_joined_text(a: BoolExpr, b: BoolExpr)
    ensures
        BoolExpr::And(Box::new(a), Box::new(b)).render() == seq!['('] + a.render() + seq![')', ' ']
            + "AND"@ + seq![' ', '('] + b.render() + seq![')'],
        BoolExpr::Or(Box::new(a), Box::new(b)).render() == seq!['('] + a.render() + seq![')', ' ']
            + "OR"@ + seq![' ', '('] + b.render() + seq![')'],
        "AND"@.len() == 3,
        "OR"@.len() == 2,
        "AND"@[0] == 'A',
        "OR"@[0] == 'O',
{
    reveal_strlit("(");
    reveal_strlit(")");
    reveal_strlit(") AND (");
    reveal_strlit(") OR (");
    reveal_strlit("AND");
    reveal_strlit("OR");
    let ra = a.render();
    let rb = b.render();
    assert("("@ + ra + ") AND ("@ + rb + ")"@ =~= seq!['('] + ra + seq![')', ' '] + "AND"@ + seq![
        ' ',
        '(',
    ] + rb + seq![')']);
    assert("("@ + ra + ") OR ("@ + rb + ")"@ =~= seq!['('] + ra + seq![')', ' '] + "OR"@ + seq![
        ' ',
        '(',
    ] + rb + seq![')']);
}

/// Two operands in parentheses with the word of a conjunction or a
/// disjunction between them are read as the two joined.
proof fn lemma_joined_case(
    s: Seq<char>,
    pos: int,
    a: BoolExpr,
    na: nat,
    b: BoolExpr,
    nb: nat,
    conjunction: bool,
)
    requires
        0 <= pos,
        "AND"@.len() == 3,
        "OR"@.len() == 2,
        "AND"@[0] == 'A',
        "OR"@[0] == 'O',
        ({
            let word: int = if conjunction {
                3
            } else {
                2
            };
            &&& pos + na + word + nb + 6 <= s.len()
            &&& s[pos] == '('
            &&& reads_or(s, pos + 1, a, na)
            &&& s[pos + 1 + na] == ')'
            &&& s[pos + 2 + na] == ' '
            &&& has_at(
                s,
                pos + 3 + na,
                if conjunction {
                    "AND"@
                } else {
                    "OR"@
                },
            )
            &&& s[pos + 3 + na + word] == ' '
            &&& s[pos + 4 + na + word] == '('
            &&& reads_or(s, pos + 5 + na + word, b, nb)
            &&& s[pos + 5 + na + word + nb] == ')'
            &&& closes(s, pos + 6 + na + word + nb)
        }),
    ensures
        ({
            let word: int = if conjunction {
                3
            } else {
                2
            };
            reads_or(s, pos, with_tail(a, Some(b), conjunction), (na + nb + word + 6) as nat)
        }),
{
    let word: int = if conjunction {
        3
    } else {
        2
    };
    let mid = pos + 1 + na;
    let right = mid + 4 + word;
    lemma_parenthesized(s, pos, a, na);
    lemma_parenthesized(s, right - 1, b, nb);
    if conjunction {
        lemma_has_at_index(s, mid + 2, "AND"@, 0);
    } else {
        lemma_has_at_index(s, mid + 2, "OR"@, 0);
        lemma_not_at(s, mid + 2, "AND"@);
    }
    lemma_ws_run(s, mid + 1, 1);
    lemma_ws_run(s, mid + 2 + word, 1);
    lemma_joined_operands(s, pos, a, na + 2, b, nb + 2, conjunction);
}

/// Two operands with the word of a conjunction or a disjunction between
/// them, a space on each side of it, are read as the two joined, if the text
/// closes after the second.
proof fn lemma_joined_operands(
    s: Seq<char>,
    pos: int,
    a: BoolExpr,
    na: nat,
    b: BoolExpr,
    nb: nat,
    conjunction: bool,
)
    requires
        0 <= pos,
        reads_not(s, pos, a, na),
        ws_len(s, pos + na) == 1,
        conjunction ==> has_at(s, pos + na + 1, "AND"@) && "AND"@.len() == 3,
        !conjunction ==> has_at(s, pos + na + 1, "OR"@) && !has_at(s, pos + na + 1, "AND"@)
            && "OR"@.len() == 2,
        ({
            let word: int = if conjunction {
                3
            } else {
                2
            };
            &&& ws_len(s, pos + na + 1 + word) == 1
            &&& reads_not(s, pos + na + 2 + word, b, nb)
            &&& closes(s, pos + na + 2 + word + nb)
        }),
    ensures
        ({
            let word: int = if conjunction {
                3
            } else {
                2
            };
            reads_or(s, pos, with_tail(a, Some(b), conjunction), (na + 2 + word + nb) as nat)
        }),
{
    reveal(reads_not);
    reveal(reads_or);
    let word: int = if conjunction {
        3
    } else {
        2
    };
    let mid = pos + na;
    let right = mid + 2 + word;
    let end = right + nb;
    lemma_tails_stop(s, end, Some(b));
    lemma_tails_stop(s, end, None);
    assert(joined(None, b, conjunction) == b);
    if conjunction {
        assert(spec_and_tail(s, end, Some(b)) == (TailOutcome::Done {
            value: Some(b),
            next: end,
        }));
        assert(spec_and_tail(s, mid, None) == (TailOutcome::Done { value: Some(b), next: end }));
        assert(spec_and(s, pos) == (Outcome::Done {
            value: with_tail(a, Some(b), true),
            len: (end - pos) as nat,
        }));
        assert(spec_or_tail(s, end, None) == (TailOutcome::Done { value: None, next: end }));
    } else {
        assert(spec_and_tail(s, mid, None) == (TailOutcome::Done { value: None, next: mid }));
        assert(spec_and(s, pos) == (Outcome::Done { value: a, len: na }));
        assert(spec_and_tail(s, end, None) == (TailOutcome::Done { value: None, next: end }));
        assert(spec_and(s, right) == (Outcome::Done { value: b, len: nb }));
        assert(spec_or_tail(s, end, Some(b)) == (TailOutcome::Done {
            value: Some(b),
            next: end,
        }));
        assert(spec_or_tail(s, mid, None) == (TailOutcome::Done { value: Some(b), next: end }));
    }
}

/// The canonical text of a filter, standing in a text where the text closes
/// after it, is read by `or` as the filter.
pub proof fn lemma_or_reads_render(s: Seq<char>, pos: int, e: BoolExpr)
    requires
        e.canonical(),
        has_at(s, pos, e.render()),
        closes(s, pos + e.render().len()),
    ensures
        reads_or(s, pos, e, e.render().len()),
        e.render().len() > 0,
    decreases e,
{
    let text = e.render();
    match e {
        BoolExpr::StringEqual(c, v) => {
            lemma_leaf_text(e);
            lemma_has_at_index(s, pos, text, 0);
            lemma_string_criterion(s, pos, c, v);
            lemma_criterion_operand(s, pos, e, text.len());
        },
        BoolExpr::StateEqual(c, state) => {
            lemma_leaf_text(e);
            lemma_has_at_index(s, pos, text, 0);
            lemma_state_criterion(s, pos, state);
            lemma_criterion_operand(s, pos, e, text.len());
        },
        BoolExpr::IntEqual(c, v) => {
            lemma_leaf_text(e);
            lemma_has_at_index(s, pos, text, 0);
            lemma_int_criterion(s, pos, Comparison::Equal, c, v);
            lemma_criterion_operand(s, pos, e, text.len());
        },
        BoolExpr::IntLess(c, v) => {
            lemma_leaf_text(e);
            lemma_has_at_index(s, pos, text, 0);
            lemma_int_criterion(s, pos, Comparison::Less, c, v);
            lemma_criterion_operand(s, pos, e, text.len());
        },
        BoolExpr::IntLessEqual(c, v) => {
            lemma_leaf_text(e);
            lemma_has_at_index(s, pos, text, 0);
            lemma_int_criterion(s, pos, Comparison::LessEqual, c, v);
            lemma_criterion_operand(s, pos, e, text.len());
        },
        BoolExpr::Not(a) => {
            lemma_not_chars(s, pos, *a);
            lemma_or_reads_render(s, pos + 5, *a);
            lemma_not_case(s, pos, *a, a.render().len());
        },
        BoolExpr::And(a, b) => {
            let ra = a.render();
            let rb = b.render();
            lemma_joined_text(*a, *b);
            lemma_joined_chars(s, pos, ra, "AND"@, rb);
            lemma_or_reads_render(s, pos + 1, *a);
            lemma_or_reads_render(s, pos + 1 + ra.len() + 7, *b);
            lemma_joined_case(s, pos, *a, ra.len(), *b, rb.len(), true);
        },
        BoolExpr::Or(a, b) => {
            let ra = a.render();
            let rb = b.render();
            lemma_joined_text(*a, *b);
            lemma_joined_chars(s, pos, ra, "OR"@, rb);
            lemma_or_reads_render(s, pos + 1, *a);
            lemma_or_reads_render(s, pos + 1 + ra.len() + 6, *b);
            lemma_joined_case(s, pos, *a, ra.len(), *b, rb.len(), false);
        },
    }
}

/// The canonical text of a comparison is not empty.
proof fn lemma_leaf_text(e: BoolExpr)
    requires
        e is StringEqual || e is StateEqual || e is IntEqual || e is IntLess || e is IntLessEqual,
    ensures
        e.render().len() > 0,
{
    reveal_strlit(" = '");
    reveal_strlit(" = ");
    reveal_strlit(" < ");
    reveal_strlit(" <= ");
}

/// What is read as a criterion is a filter that a text can stand for.
proof fn lemma_criterion_canonical(s: Seq<char>, pos: int)
    ensures
        spec_criterion(s, pos) matches Outcome::Done { value, .. } ==> value.canonical(),
{
    reveal(spec_criterion);
    reveal(spec_state_criterion);
    reveal(spec_int_criterion);
    reveal(spec_string_criterion);
    reveal_with_fuel(BoolExpr::canonical, 3);
}

/// What is read as a disjunction is a filter that a text can stand for.
proof fn lemma_or_canonical(s: Seq<char>, pos: int)
    ensures
        spec_or(s, pos) matches Outcome::Done { value, .. } ==> value.canonical(),
    decreases remaining(s, pos), 10int,
{
    lemma_and_canonical(s, pos);
    match spec_and(s, pos) {
        Outcome::Done { value, len } => {
            lemma_or_tail_canonical(s, pos + len, None);
        },
        _ => {},
    }
}

proof fn lemma_or_tail_canonical(s: Seq<char>, pos: int, acc: Option<BoolExpr>)
    requires
        acc matches Some(a) ==> a.canonical(),
    ensures
        spec_or_tail(s, pos, acc) matches TailOutcome::Done { value: Some(v), .. }
            ==> v.canonical(),
    decreases remaining(s, pos), 9int,
{
    let at_op = pos + ws_len(s, pos);
    if has_at(s, at_op, "OR"@) && "OR"@.len() == 2 {
        let at_val = at_op + 2 + ws_len(s, at_op + 2);
        lemma_and_canonical(s, at_val);
        match spec_and(s, at_val) {
            Outcome::Done { value, len } => {
                lemma_or_tail_canonical(s, at_val + len, Some(joined(acc, value, false)));
            },
            _ => {},
        }
    }
}

proof fn lemma_and_canonical(s: Seq<char>, pos: int)
    ensures
        spec_and(s, pos) matches Outcome::Done { value, .. } ==> value.canonical(),
    decreases remaining(s, pos), 8int,
{
    lemma_not_canonical(s, pos);
    match spec_not(s, pos) {
        Outcome::Done { value, len } => {
            lemma_and_tail_canonical(s, pos + len, None);
        },
        _ => {},
    }
}

proof fn lemma_and_tail_canonical(s: Seq<char>, pos: int, acc: Option<BoolExpr>)
    requires
        acc matches Some(a) ==> a.canonical(),
    ensures
        spec_and_tail(s, pos, acc) matches TailOutcome::Done { value: Some(v), .. }
            ==> v.canonical(),
    decreases remaining(s, pos), 7int,
{
    let at_op = pos + ws_len(s, pos);
    if has_at(s, at_op, "AND"@) && "AND"@.len() == 3 {
        let at_val = at_op + 3 + ws_len(s, at_op + 3);
        lemma_not_canonical(s, at_val);
        match spec_not(s, at_val) {
            Outcome::Done { value, len } => {
                lemma_and_tail_canonical(s, at_val + len, Some(joined(acc, value, true)));
            },
            _ => {},
        }
    }
}

proof fn lemma_not_canonical(s: Seq<char>, pos: int)
    ensures
        spec_not(s, pos) matches Outcome::Done { value, .. } ==> value.canonical(),
    decreases remaining(s, pos), 6int,
{
    lemma_arg_canonical(s, pos);
    if has_at(s, pos, "NOT"@) && "NOT"@.len() == 3 {
        lemma_arg_canonical(s, pos + 3 + ws_len(s, pos + 3));
    }
}

proof fn lemma_arg_canonical(s: Seq<char>, pos: int)
    ensures
        spec_arg(s, pos) matches Outcome::Done { value, .. } ==> value.canonical(),
    decreases remaining(s, pos), 5int,
{
    lemma_criterion_canonical(s, pos);
    if has_at(s, pos, "("@) && "("@.len() == 1 {
        lemma_or_canonical(s, pos + 1);
    }
}

/// Every filter that is read from a text is a filter that a text can stand
/// for.
pub proof fn lemma_read_is_canonical(s: Seq<char>)
    ensures
        spec_filter(s) matches FilterOutcome::Accepted { value } ==> value.canonical(),
{
    lemma_or_canonical(s, 0);
}

/// Reading the canonical text of a filter gives the filter back.
pub proof fn lemma_parse_render(e: BoolExpr)
    requires
        e.canonical(),
    ensures
        spec_filter(e.render()) == (FilterOutcome::Accepted { value: e }),
{
    let s = e.render();
    assert(s.subrange(0, s.len() as int) =~= s);
    lemma_or_reads_render(s, 0, e);
    reveal(reads_or);
}

/// What is read from a text is read again from its canonical text: writing
/// a filter that was read and reading what was written gives the same
/// filter.
pub proof fn lemma_read_back(s: Seq<char>, e: BoolExpr)
    requires
        spec_filter(s) == (FilterOutcome::Accepted { value: e }),
    ensures
        spec_filter(e.render()) == (FilterOutcome::Accepted { value: e }),
{
    lemma_read_is_canonical(s);
    lemma_parse_render(e);
}

} // verus!
