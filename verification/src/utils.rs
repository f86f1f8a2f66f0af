use vstd::prelude::*;

verus! {

// Character classes used by the scanner.
pub open spec fn is_digit(c: char) -> bool {
    '0' <= c && c <= '9'
}

pub open spec fn is_whitespace(c: char) -> bool {
    c == ' ' || c == '\n'
}

pub open spec fn is_space(c: char) -> bool {
    c == ' '
}

pub open spec fn is_alphabetic(c: char) -> bool {
    ('a' <= c && c <= 'z') || ('A' <= c && c <= 'Z')
}

pub open spec fn is_alphanumeric(c: char) -> bool {
    is_alphabetic(c) || is_digit(c)
}

pub open spec fn is_op_char(c: char) -> bool {
    c == '+' || c == '-' || c == '*' || c == '/'
}

// The same classes as predicate values, for use with `take_len`.
pub open spec fn digit_p() -> spec_fn(char) -> bool {
    |c: char| is_digit(c)
}

pub open spec fn whitespace_p() -> spec_fn(char) -> bool {
    |c: char| is_whitespace(c)
}

pub open spec fn space_p() -> spec_fn(char) -> bool {
    |c: char| is_space(c)
}

pub open spec fn alphanumeric_p() -> spec_fn(char) -> bool {
    |c: char| is_alphanumeric(c)
}

pub fn digit_char(c: char) -> (b: bool)
    ensures
        b == is_digit(c),
{
    '0' <= c && c <= '9'
}

pub fn whitespace_char(c: char) -> (b: bool)
    ensures
        b == is_whitespace(c),
{
    c == ' ' || c == '\n'
}

pub fn space_char(c: char) -> (b: bool)
    ensures
        b == is_space(c),
{
    c == ' '
}

pub fn alphanumeric_char(c: char) -> (b: bool)
    ensures
        b == is_alphanumeric(c),
{
    ('a' <= c && c <= 'z') || ('A' <= c && c <= 'Z') || ('0' <= c && c <= '9')
}

/// Length of the longest prefix of `s` all of whose characters satisfy `p`.
pub open spec fn take_len(p: spec_fn(char) -> bool, s: Seq<char>) -> int
    decreases s.len(),
{
    if s.len() == 0 || !p(s[0]) {
        0
    } else {
        1 + take_len(p, s.drop_first())
    }
}

/// `n` marks the boundary of the longest prefix of `s` satisfying `p`.
pub open spec fn splits_at(p: spec_fn(char) -> bool, s: Seq<char>, n: int) -> bool {
    &&& 0 <= n <= s.len()
    &&& forall|i: int| 0 <= i < n ==> p(s[i])
    &&& (n == s.len() || !p(s[n]))
}

pub proof fn lemma_take_len_bounds(p: spec_fn(char) -> bool, s: Seq<char>)
    ensures
        0 <= take_len(p, s) <= s.len(),
    decreases s.len(),
{
    if s.len() == 0 || !p(s[0]) {
    } else {
        lemma_take_len_bounds(p, s.drop_first());
    }
}

pub proof fn lemma_take_len_is_split(p: spec_fn(char) -> bool, s: Seq<char>)
    ensures
        splits_at(p, s, take_len(p, s)),
    decreases s.len(),
{
    if s.len() == 0 || !p(s[0]) {
    } else {
        let s1 = s.drop_first();
        lemma_take_len_is_split(p, s1);
        let n = take_len(p, s);
        assert forall|i: int| 0 <= i < n implies p(s[i]) by {
            if i > 0 {
                assert(p(s1[i - 1]));
            }
        }
        if n < s.len() {
            assert(s1[n - 1] == s[n]);
        }
    }
}

pub proof fn lemma_take_len_splits(p: spec_fn(char) -> bool, s: Seq<char>, n: int)
    requires
        splits_at(p, s, n),
    ensures
        n == take_len(p, s),
    decreases s.len(),
{
    if n == 0 {
    } else {
        assert(p(s[0]));
        let s1 = s.drop_first();
        assert forall|i: int| 0 <= i < n - 1 implies p(s1[i]) by {
            assert(s1[i] == s[i + 1]);
        }
        if n - 1 < s1.len() {
            assert(s1[n - 1] == s[n]);
        }
        lemma_take_len_splits(p, s1, n - 1);
    }
}

/// Longest prefix of `s` whose characters all satisfy `accept`; returns
/// (remainder, extracted).  The predicate `p` is the mathematical meaning
/// of `accept`.
pub fn take_while<F: Fn(char) -> bool>(accept: F, s: &str, Ghost(p): Ghost<spec_fn(char) -> bool>) -> (r: (&str, &str))
    requires
        forall|c: char| #[trigger] call_requires(accept, (c,)),
        forall|c: char, b: bool| #[trigger] call_ensures(accept, (c,), b) ==> b == p(c),
    ensures
        0 <= take_len(p, s@) <= s@.len(),
        r.0@ == s@.skip(take_len(p, s@)),
        r.1@ == s@.take(take_len(p, s@)),
        s@ == r.1@ + r.0@,
{
    let len = s.unicode_len();
    let mut n: usize = 0;
    loop
        invariant
            forall|c: char| #[trigger] call_requires(accept, (c,)),
            forall|c: char, b: bool| #[trigger] call_ensures(accept, (c,), b) ==> b == p(c),
            len == s@.len(),
            n <= len,
            forall|i: int| 0 <= i < n ==> p(s@[i]),
        ensures
            splits_at(p, s@, n as int),
        decreases len - n,
    {
        if n == len {
            break ;
        }
        let c = s.get_char(n);
        if !accept(c) {
            break ;
        }
        n += 1;
    }
    proof {
        lemma_take_len_splits(p, s@, n as int);
    }
    let remainder = s.substring_char(n, len);
    let extracted = s.substring_char(0, n);
    proof {
        assert(s@ =~= extracted@ + remainder@);
    }
    (remainder, extracted)
}

/// Like `take_while`, but signals `error_msg` when the extracted prefix is
/// empty.
pub fn take_while_req<F: Fn(char) -> bool>(
    accept: F,
    s: &str,
    error_msg: String,
    Ghost(p): Ghost<spec_fn(char) -> bool>,
) -> (r: Result<(&str, &str), String>)
    requires
        forall|c: char| #[trigger] call_requires(accept, (c,)),
        forall|c: char, b: bool| #[trigger] call_ensures(accept, (c,), b) ==> b == p(c),
    ensures
        take_len(p, s@) == 0 ==> (r matches Err(e) && e@ == error_msg@),
        take_len(p, s@) > 0 ==> (r matches Ok(t) && t.0@ == s@.skip(take_len(p, s@)) && t.1@
            == s@.take(take_len(p, s@))),
{
    let (remainder, extracted) = take_while(accept, s, Ghost(p));
    if extracted.is_empty() {
        Err(error_msg)
    } else {
        Ok((remainder, extracted))
    }
}

pub fn extract_digits(s: &str) -> (r: Result<(&str, &str), String>)
    ensures
        take_len(digit_p(), s@) == 0 ==> (r matches Err(e) && e@ == "Expected digits"@),
        take_len(digit_p(), s@) > 0 ==> (r matches Ok(t) && t.0@ == s@.skip(
            take_len(digit_p(), s@),
        ) && t.1@ == s@.take(take_len(digit_p(), s@))),
{
    take_while_req(
        digit_char,
        s,
        "Expected digits".to_owned(),
        Ghost(digit_p()),
    )
}

pub fn extract_whitespace(s: &str) -> (r: (&str, &str))
    ensures
        0 <= take_len(whitespace_p(), s@) <= s@.len(),
        r.0@ == s@.skip(take_len(whitespace_p(), s@)),
        r.1@ == s@.take(take_len(whitespace_p(), s@)),
{
    take_while(whitespace_char, s, Ghost(whitespace_p()))
}

pub fn extract_whitespace_req(s: &str) -> (r: Result<(&str, &str), String>)
    ensures
        take_len(whitespace_p(), s@) == 0 ==> (r matches Err(e) && e@ == "Expected whitespace"@),
        take_len(whitespace_p(), s@) > 0 ==> (r matches Ok(t) && t.0@ == s@.skip(
            take_len(whitespace_p(), s@),
        ) && t.1@ == s@.take(take_len(whitespace_p(), s@))),
{
    take_while_req(whitespace_char, s, "Expected whitespace".to_owned(), Ghost(whitespace_p()))
}

/// Runs of spaces only (no newlines): the separator between call arguments.
pub fn extract_spaces(s: &str) -> (r: (&str, &str))
    ensures
        0 <= take_len(space_p(), s@) <= s@.len(),
        r.0@ == s@.skip(take_len(space_p(), s@)),
        r.1@ == s@.take(take_len(space_p(), s@)),
{
    take_while(
        space_char,
        s,
        Ghost(space_p()),
    )
}

pub fn extract_ident(s: &str) -> (r: Result<(&str, &str), String>)
    ensures
        (s@.len() > 0 && is_alphabetic(s@[0])) ==> (r matches Ok(t) && t.0@ == s@.skip(
            take_len(alphanumeric_p(), s@),
        ) && t.1@ == s@.take(take_len(alphanumeric_p(), s@)) && 0 < take_len(alphanumeric_p(), s@)
            <= s@.len()),
        !(s@.len() > 0 && is_alphabetic(s@[0])) ==> (r matches Err(e) && e@
            == "Expected identifier"@),
{
    let len = s.unicode_len();
    let starts_alpha = if len == 0 {
        false
    } else {
        let c = s.get_char(0);
        ('a' <= c && c <= 'z') || ('A' <= c && c <= 'Z')
    };
    if starts_alpha {
        let r = take_while(
            alphanumeric_char,
            s,
            Ghost(alphanumeric_p()),
        );
        proof {
            lemma_take_len_bounds(alphanumeric_p(), s@.drop_first());
        }
        Ok(r)
    } else {
        Err("Expected identifier".to_owned())
    }
}

pub open spec fn is_prefix_of(t: Seq<char>, s: Seq<char>) -> bool {
    t.len() <= s.len() && s.take(t.len() as int) == t
}

fn expected_msg(t: &str) -> (m: String)
    ensures
        m@ == "Expected "@ + t@,
{
    let mut m = "Expected ".to_owned();
    m.append(t);
    m
}

/// Checks that `s` starts with the literal `starting_text` and strips it.
pub fn tag<'a, 'b>(starting_text: &'a str, s: &'b str) -> (r: Result<&'b str, String>)
    ensures
        is_prefix_of(starting_text@, s@) ==> (r matches Ok(rem) && rem@ == s@.skip(
            starting_text@.len() as int,
        )),
        !is_prefix_of(starting_text@, s@) ==> (r matches Err(e) && e@ == "Expected "@
            + starting_text@),
{
    let t_len = starting_text.unicode_len();
    let s_len = s.unicode_len();
    if t_len > s_len {
        return Err(expected_msg(starting_text));
    }
    let mut i: usize = 0;
    while i < t_len
        invariant
            t_len == starting_text@.len(),
            s_len == s@.len(),
            t_len <= s_len,
            i <= t_len,
            forall|j: int| 0 <= j < i ==> s@[j] == starting_text@[j],
        decreases t_len - i,
    {
        if s.get_char(i) != starting_text.get_char(i) {
            proof {
                assert(s@.take(t_len as int)[i as int] != starting_text@[i as int]);
            }
            return Err(expected_msg(starting_text));
        }
        i += 1;
    }
    proof {
        assert(s@.take(t_len as int) =~= starting_text@);
    }
    Ok(s.substring_char(t_len, s_len))
}

/// Splits a single operator character (`+ - * /`) off the front of `s`.
/// Any other leading character is a recoverable parse error, never a panic.
pub fn extract_op(s: &str) -> (r: Result<(&str, &str), String>)
    ensures
        (s@.len() > 0 && is_op_char(s@[0])) ==> (r matches Ok(t) && t.0@ == s@.skip(1) && t.1@
            == s@.take(1)),
        !(s@.len() > 0 && is_op_char(s@[0])) ==> (r matches Err(e) && e@ == "Unknown operator"@),
{
    let len = s.unicode_len();
    if len == 0 {
        return Err("Unknown operator".to_owned());
    }
    let c = s.get_char(0);
    if c == '+' || c == '-' || c == '*' || c == '/' {
        Ok((s.substring_char(1, len), s.substring_char(0, 1)))
    } else {
        Err("Unknown operator".to_owned())
    }
}

/// What repeated application of an item parser `p` with separator `sep`
/// yields on `s`: the final remainder and the items parsed, in order.
/// The separator never fails; repetition stops at the first item failure.
pub open spec fn seq_parse<TV>(
    p: spec_fn(Seq<char>) -> Result<(Seq<char>, TV), Seq<char>>,
    sep: spec_fn(Seq<char>) -> Seq<char>,
    s: Seq<char>,
) -> (Seq<char>, Seq<TV>)
    decreases s.len(),
{
    match p(s) {
        Err(_) => (s, Seq::empty()),
        Ok((s1, item)) => {
            if s1.len() < s.len() && sep(s1).len() <= s1.len() {
                let rec = seq_parse(p, sep, sep(s1));
                (rec.0, seq![item] + rec.1)
            } else {
                (s1, seq![item])
            }
        },
    }
}

/// Relates one executable parser step to the spec parser `p`: successes
/// agree with `p` and consume input, and failures are exactly `p`'s.
pub open spec fn models_step<T: DeepView>(
    p: spec_fn(Seq<char>) -> Result<(Seq<char>, T::V), Seq<char>>,
    s: Seq<char>,
    r: Result<(&str, T), String>,
) -> bool {
    match r {
        Ok(t) => p(s) == Ok::<_, Seq<char>>((t.0@, t.1.deep_view())) && t.0@.len() < s.len(),
        Err(e) => p(s) is Err,
    }
}

/// Repeatedly applies `parser`, consuming `separator` after each item;
/// stops without error at the first item failure.  Always succeeds.
pub fn sequence<T: DeepView, F: Fn(&str) -> Result<(&str, T), String>, S: Fn(&str) -> (
    &str,
    &str,
)>(
    parser: F,
    separator: S,
    s: &str,
    Ghost(p): Ghost<spec_fn(Seq<char>) -> Result<(Seq<char>, T::V), Seq<char>>>,
    Ghost(sep): Ghost<spec_fn(Seq<char>) -> Seq<char>>,
) -> (r: Result<(&str, Vec<T>), String>)
    requires
        forall|s2: &str| #[trigger] call_requires(parser, (s2,)),
        forall|s2: &str, r2: Result<(&str, T), String>|
            #[trigger] call_ensures(parser, (s2,), r2) ==> models_step::<T>(p, s2@, r2),
        forall|s2: &str| #[trigger] call_requires(separator, (s2,)),
        forall|s2: &str, r2: (&str, &str)|
            #[trigger] call_ensures(separator, (s2,), r2) ==> r2.0@ == sep(s2@) && sep(s2@).len()
                <= s2@.len(),
    ensures
        r matches Ok(t) && t.0@ == seq_parse(p, sep, s@).0 && t.1.deep_view() == seq_parse(
            p,
            sep,
            s@,
        ).1,
{
    let ghost full = seq_parse(p, sep, s@);
    let mut cur: &str = s;
    let mut items: Vec<T> = Vec::new();
    loop
        invariant
            forall|s2: &str| #[trigger] call_requires(parser, (s2,)),
            forall|s2: &str, r2: Result<(&str, T), String>|
                #[trigger] call_ensures(parser, (s2,), r2) ==> models_step::<T>(p, s2@, r2),
            forall|s2: &str| #[trigger] call_requires(separator, (s2,)),
            forall|s2: &str, r2: (&str, &str)|
                #[trigger] call_ensures(separator, (s2,), r2) ==> r2.0@ == sep(s2@) && sep(
                    s2@,
                ).len() <= s2@.len(),
            full == seq_parse(p, sep, s@),
            full.0 == seq_parse(p, sep, cur@).0,
            full.1 == items.deep_view() + seq_parse(p, sep, cur@).1,
        ensures
            p(cur@) is Err,
            full.0 == seq_parse(p, sep, cur@).0,
            full.1 == items.deep_view() + seq_parse(p, sep, cur@).1,
        decreases cur@.len(),
    {
        let ghost prev = cur@;
        let ghost items_dv = items.deep_view();
        match parser(cur) {
            Err(_) => {
                break ;
            },
            Ok(pr) => {
                let new_s = pr.0;
                items.push(pr.1);
                let sep_r = separator(new_s);
                cur = sep_r.0;
                proof {
                    assert(items.deep_view() =~= items_dv.push(seq_parse(p, sep, prev).1[0]));
                    assert(full.1 =~= items.deep_view() + seq_parse(p, sep, cur@).1);
                }
            },
        }
    }
    proof {
        assert(full.1 =~= items.deep_view());
    }
    Ok((cur, items))
}

/// Like `sequence`, but signals an error when zero items were parsed.
pub fn sequence_req<T: DeepView, F: Fn(&str) -> Result<(&str, T), String>, S: Fn(&str) -> (
    &str,
    &str,
)>(
    parser: F,
    separator: S,
    s: &str,
    Ghost(p): Ghost<spec_fn(Seq<char>) -> Result<(Seq<char>, T::V), Seq<char>>>,
    Ghost(sep): Ghost<spec_fn(Seq<char>) -> Seq<char>>,
) -> (r: Result<(&str, Vec<T>), String>)
    requires
        forall|s2: &str| #[trigger] call_requires(parser, (s2,)),
        forall|s2: &str, r2: Result<(&str, T), String>|
            #[trigger] call_ensures(parser, (s2,), r2) ==> models_step::<T>(p, s2@, r2),
        forall|s2: &str| #[trigger] call_requires(separator, (s2,)),
        forall|s2: &str, r2: (&str, &str)|
            #[trigger] call_ensures(separator, (s2,), r2) ==> r2.0@ == sep(s2@) && sep(s2@).len()
                <= s2@.len(),
    ensures
        seq_parse(p, sep, s@).1.len() == 0 ==> (r matches Err(e) && e@
            == "Expected a sequence with atleast one item"@),
        seq_parse(p, sep, s@).1.len() > 0 ==> (r matches Ok(t) && t.0@ == seq_parse(p, sep, s@).0
            && t.1.deep_view() == seq_parse(p, sep, s@).1),
{
    let pair = match sequence(parser, separator, s, Ghost(p), Ghost(sep)) {
        Ok(t) => t,
        Err(e) => {
            proof {
                assert(false);
            }
            return Err(e);
        },
    };
    if pair.1.len() == 0 {
        Err("Expected a sequence with atleast one item".to_owned())
    } else {
        Ok(pair)
    }
}

} // verus!
