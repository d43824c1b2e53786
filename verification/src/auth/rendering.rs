//! Challenges as they are written, and the proof that parsing reads back
//! what was written.

use crate::auth::challenge::{
    next_param_start, parse_challenge, parse_params, read_param, AuthChallengeView,
};
use crate::text::{
    drop_trailing_spaces, first_index, first_index_of_either, is_space, lemma_first_index_is,
    lemma_first_index_of_either_is, skip_char, skip_spaces, trimmed,
};
use vstd::prelude::*;

verus! {

/// A parameter of a challenge, and whether its value is written in quotes.
pub struct ChallengeParam {
    pub key: Seq<char>,
    pub value: Seq<char>,
    pub quoted: bool,
}

/// Whether a text neither starts nor ends with white space.
pub open spec fn no_outer_space(s: Seq<char>) -> bool {
    s.len() > 0 ==> !is_space(s[0]) && !is_space(s.last())
}

/// Whether a scheme can be written: it is not empty, holds no space, and
/// neither starts nor ends with white space.
pub open spec fn writable_scheme(scheme: Seq<char>) -> bool {
    scheme.len() > 0 && !scheme.contains(' ') && no_outer_space(scheme)
}

/// Whether a parameter can be written. Its key holds neither `=` nor comma,
/// and neither starts nor ends with white space. A value in quotes holds no
/// quote. A value without quotes holds no comma, does not start with a quote,
/// and neither starts nor ends with white space.
pub open spec fn writable_param(p: ChallengeParam) -> bool {
    &&& !p.key.contains('=')
    &&& !p.key.contains(',')
    &&& no_outer_space(p.key)
    &&& p.quoted ==> !p.value.contains('"')
    &&& !p.quoted ==> {
        &&& !p.value.contains(',')
        &&& no_outer_space(p.value)
        &&& p.value.len() > 0 ==> p.value[0] != '"'
    }
}

/// Whether every parameter can be written.
pub open spec fn writable_params(params: Seq<ChallengeParam>) -> bool {
    forall|i: int| 0 <= i < params.len() ==> writable_param(#[trigger] params[i])
}

/// A value as it is written: between quotes, or as it is.
pub open spec fn written_value(p: ChallengeParam) -> Seq<char> {
    if p.quoted {
        seq!['"'] + p.value + seq!['"']
    } else {
        p.value
    }
}

/// A parameter as it is written: key, `=`, value.
pub open spec fn written_param(p: ChallengeParam) -> Seq<char> {
    p.key + seq!['='] + written_value(p)
}

/// What follows a parameter: a comma, a space and the parameters that are
/// left, or nothing.
pub open spec fn written_tail(params: Seq<ChallengeParam>) -> Seq<char>
    decreases params.len(), 1nat,
{
    if params.len() == 0 {
        Seq::empty()
    } else {
        seq![',', ' '] + written_params(params)
    }
}

/// Parameters as they are written, with a comma and a space between them.
pub open spec fn written_params(params: Seq<ChallengeParam>) -> Seq<char>
    decreases params.len(), 0nat,
{
    if params.len() == 0 {
        Seq::empty()
    } else {
        written_param(params[0]) + written_tail(params.drop_first())
    }
}

/// A challenge as it is written: the scheme, then a space and the
/// parameters, if there are any.
pub open spec fn written_challenge(scheme: Seq<char>, params: Seq<ChallengeParam>) -> Seq<char> {
    if params.len() == 0 {
        scheme
    } else {
        scheme + seq![' '] + written_params(params)
    }
}

/// The mapping that parameters stand for, added to `acc`: a later value for
/// a key replaces an earlier one.
pub open spec fn declared(params: Seq<ChallengeParam>, acc: Map<Seq<char>, Seq<char>>) -> Map<
    Seq<char>,
    Seq<char>,
>
    decreases params.len(),
{
    if params.len() == 0 {
        acc
    } else {
        declared(params.drop_first(), acc.insert(params[0].key, params[0].value))
    }
}

/// Trimming changes nothing in a text that neither starts nor ends with
/// white space.
pub proof fn lemma_trimmed_is_same(s: Seq<char>)
    requires
        no_outer_space(s),
    ensures
        trimmed(s) == s,
{
    assert(skip_spaces(s) == s);
    assert(drop_trailing_spaces(s) == s);
}

/// The first `c` of a text that holds none before it.
pub proof fn lemma_first_index_after(a: Seq<char>, c: char, b: Seq<char>)
    requires
        !a.contains(c),
    ensures
        first_index(a + seq![c] + b, c) == a.len(),
{
    let s = a + seq![c] + b;
    assert(s[a.len() as int] == c);
    assert forall|j: int| 0 <= j < a.len() implies s[j] != c by {
        assert(s[j] == a[j]);
        assert(a.contains(a[j]));
    }
    lemma_first_index_is(s, c, a.len() as int);
}

/// The end of a key that holds neither `=` nor comma and stands before a
/// `=`.
pub proof fn lemma_key_ends_at_equals(key: Seq<char>, after: Seq<char>)
    requires
        !key.contains('='),
        !key.contains(','),
    ensures
        first_index_of_either(key + seq!['='] + after, '=', ',') == key.len(),
{
    let s = key + seq!['='] + after;
    assert(s[key.len() as int] == '=');
    assert forall|j: int| 0 <= j < key.len() implies s[j] != '=' && s[j] != ',' by {
        assert(s[j] == key[j]);
        assert(key.contains(key[j]));
    }
    lemma_first_index_of_either_is(s, '=', ',', key.len() as int);
}

/// A text that holds no `c` has its first `c` at its end.
pub proof fn lemma_first_index_none(a: Seq<char>, c: char)
    requires
        !a.contains(c),
    ensures
        first_index(a, c) == a.len(),
{
    assert forall|j: int| 0 <= j < a.len() implies a[j] != c by {
        assert(a.contains(a[j]));
    }
    lemma_first_index_is(a, c, a.len() as int);
}

/// Written parameters are not empty, do not start with a comma, and neither
/// start nor end with white space.
pub proof fn lemma_written_params_shape(params: Seq<ChallengeParam>)
    requires
        params.len() > 0,
        writable_params(params),
    ensures
        written_params(params).len() > 0,
        written_params(params)[0] != ',',
        no_outer_space(written_params(params)),
    decreases params.len(),
{
    let p = params[0];
    let rest = params.drop_first();
    let head = written_param(p);
    let all = written_params(params);
    assert(writable_param(p));
    assert(head.len() > 0);
    assert(all[0] == head[0]);
    if p.key.len() > 0 {
        assert(head[0] == p.key[0]);
        assert(p.key.contains(p.key[0]));
    } else {
        assert(head[0] == '=');
    }
    // the last character of the head
    if p.quoted {
        assert(head.last() == '"');
    } else if p.value.len() > 0 {
        assert(head.last() == p.value.last());
    } else {
        assert(head.last() == '=');
    }
    if rest.len() == 0 {
        assert(written_tail(rest) =~= Seq::<char>::empty());
        assert(all =~= head);
    } else {
        assert forall|i: int| 0 <= i < rest.len() implies writable_param(#[trigger] rest[i]) by {
            assert(rest[i] == params[i + 1]);
        }
        lemma_written_params_shape(rest);
        let tail = written_tail(rest);
        assert(tail.last() == written_params(rest).last());
        assert(all.last() == tail.last());
    }
}

/// Where the next parameter starts after a written tail: at the parameters
/// that are left.
pub proof fn lemma_next_after_tail(params: Seq<ChallengeParam>)
    requires
        writable_params(params),
    ensures
        next_param_start(written_tail(params)) == written_params(params),
{
    if params.len() == 0 {
        assert(written_tail(params) =~= Seq::<char>::empty());
        assert(skip_char(Seq::<char>::empty(), ',') =~= Seq::<char>::empty());
        assert(written_params(params) =~= Seq::<char>::empty());
        lemma_trimmed_is_same(Seq::<char>::empty());
    } else {
        let rest = written_params(params);
        lemma_written_params_shape(params);
        let tail = written_tail(params);
        let spaced = seq![' '] + rest;
        assert(tail.drop_first() =~= spaced);
        assert(tail[0] == ',');
        assert(spaced[0] == ' ');
        assert(skip_char(spaced, ',') == spaced);
        assert(skip_char(tail, ',') == spaced);
        assert(spaced.drop_first() =~= rest);
        assert(is_space(' '));
        assert(skip_spaces(rest) == rest);
        assert(skip_spaces(spaced) == rest);
        assert(drop_trailing_spaces(rest) == rest);
    }
}

/// Reading a written parameter gives its key and value, and leaves what
/// follows it.
pub proof fn lemma_read_written_param(p: ChallengeParam, tail: Seq<char>)
    requires
        writable_param(p),
        tail.len() > 0 ==> tail[0] == ',',
    ensures
        read_param(written_param(p) + tail).pair == Some((p.key, p.value)),
        read_param(written_param(p) + tail).rest == tail,
{
    let rem = written_param(p) + tail;
    let after = written_value(p) + tail;
    assert(rem =~= p.key + seq!['='] + after);
    lemma_key_ends_at_equals(p.key, after);
    let key_end = p.key.len() as int;
    assert(rem[key_end] == '=');
    assert(rem.take(key_end) =~= p.key);
    lemma_trimmed_is_same(p.key);
    assert(rem.skip(key_end + 1) =~= after);
    if p.quoted {
        assert(after[0] == '"');
        let body = p.value + seq!['"'] + tail;
        assert(after.skip(1) =~= body);
        lemma_first_index_after(p.value, '"', tail);
        let end = p.value.len() as int;
        assert(body.take(end) =~= p.value);
        assert(body.skip(end + 1) =~= tail);
    } else {
        if after.len() > 0 {
            if p.value.len() > 0 {
                assert(after[0] == p.value[0]);
            } else {
                assert(after[0] == tail[0]);
            }
        }
        let end = p.value.len() as int;
        if tail.len() > 0 {
            let others = tail.drop_first();
            assert(after =~= p.value + seq![','] + others);
            lemma_first_index_after(p.value, ',', others);
        } else {
            assert(after =~= p.value);
            lemma_first_index_none(p.value, ',');
        }
        assert(after.take(end) =~= p.value);
        lemma_trimmed_is_same(p.value);
        assert(after.skip(end) =~= tail);
    }
}

/// Parsing written parameters gives the mapping that they stand for.
pub proof fn lemma_parse_written_params(
    params: Seq<ChallengeParam>,
    acc: Map<Seq<char>, Seq<char>>,
)
    requires
        writable_params(params),
    ensures
        parse_params(written_params(params), acc) == declared(params, acc),
    decreases params.len(),
{
    if params.len() == 0 {
        assert(written_params(params) =~= Seq::<char>::empty());
    } else {
        let p = params[0];
        let rest = params.drop_first();
        assert forall|i: int| 0 <= i < rest.len() implies writable_param(#[trigger] rest[i]) by {
            assert(rest[i] == params[i + 1]);
        }
        let tail = written_tail(rest);
        let rem = written_params(params);
        assert(writable_param(p));
        assert(written_param(p).len() > 0);
        assert(rem.len() > 0);
        if rest.len() > 0 {
            assert(tail[0] == ',');
        } else {
            assert(tail =~= Seq::<char>::empty());
        }
        lemma_read_written_param(p, tail);
        lemma_next_after_tail(rest);
        lemma_parse_written_params(rest, acc.insert(p.key, p.value));
    }
}

/// Parsing recovers what was written: the header written for a scheme and
/// parameters, with values in quotes or without, parses to that scheme and
/// to the mapping that the parameters stand for.
pub proof fn lemma_parse_recovers_written(scheme: Seq<char>, params: Seq<ChallengeParam>)
    requires
        writable_scheme(scheme),
        writable_params(params),
    ensures
        parse_challenge(written_challenge(scheme, params)) == Some(
            AuthChallengeView { scheme, params: declared(params, Map::empty()) },
        ),
{
    let header = written_challenge(scheme, params);
    if params.len() == 0 {
        lemma_trimmed_is_same(header);
        lemma_first_index_none(scheme, ' ');
        assert(header.take(header.len() as int) =~= scheme);
        lemma_trimmed_is_same(Seq::<char>::empty());
        assert(parse_params(Seq::<char>::empty(), Map::empty()) == Map::<
            Seq<char>,
            Seq<char>,
        >::empty());
    } else {
        let written = written_params(params);
        lemma_written_params_shape(params);
        assert(header[0] == scheme[0]);
        assert(header.last() == written.last());
        lemma_trimmed_is_same(header);
        lemma_first_index_after(scheme, ' ', written);
        let cut = scheme.len() as int;
        assert(header.take(cut) =~= scheme);
        assert(header.skip(cut + 1) =~= written);
        lemma_trimmed_is_same(written);
        lemma_parse_written_params(params, Map::empty());
    }
}

/// Blank headers hold no challenge.
pub proof fn lemma_blank_header_holds_none(header: Seq<char>)
    requires
        forall|i: int| 0 <= i < header.len() ==> is_space(#[trigger] header[i]),
    ensures
        parse_challenge(header) is None,
    decreases header.len(),
{
    lemma_all_spaces_skipped(header);
}

/// Skipping the white space of a text that is all white space leaves
/// nothing.
pub proof fn lemma_all_spaces_skipped(s: Seq<char>)
    requires
        forall|i: int| 0 <= i < s.len() ==> is_space(#[trigger] s[i]),
    ensures
        skip_spaces(s).len() == 0,
        trimmed(s).len() == 0,
    decreases s.len(),
{
    if s.len() > 0 {
        let rest = s.drop_first();
        assert forall|i: int| 0 <= i < rest.len() implies is_space(#[trigger] rest[i]) by {
            assert(rest[i] == s[i + 1]);
        }
        lemma_all_spaces_skipped(rest);
    }
}

} // verus!
