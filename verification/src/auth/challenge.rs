//! Parsing of `WWW-Authenticate` challenges.

use crate::auth::params::ParamMap;
use crate::text::{
    chars_of, drop_trailing_spaces, find_char, find_either, first_index, first_index_of_either,
    lemma_first_index, lemma_first_index_of_either, skip_char, skip_char_at, skip_spaces,
    string_of, trim_at, trimmed,
};
use vstd::prelude::*;

verus! {

/// A challenge as mathematics: its scheme and its parameters.
pub struct AuthChallengeView {
    pub scheme: Seq<char>,
    pub params: Map<Seq<char>, Seq<char>>,
}

/// A parsed authentication challenge.
pub struct AuthChallenge {
    /// The authentication scheme, such as `Bearer` or `Basic`.
    pub scheme: String,
    /// The parameters of the challenge.
    pub params: ParamMap,
}

impl View for AuthChallenge {
    type V = AuthChallengeView;

    open spec fn view(&self) -> AuthChallengeView {
        AuthChallengeView { scheme: self.scheme@, params: self.params@ }
    }
}

/// What reading one parameter off the front of a text gives: the pair read, if
/// it had a `=`, and the text that is left after it.
pub struct ParamStep {
    pub pair: Option<(Seq<char>, Seq<char>)>,
    pub rest: Seq<char>,
}

/// Reads one pair off the front of `rem`. The key runs to the first `=` or
/// `,`. Where a `,` ends it, or nothing does, the pair has no `=`: nothing is
/// read, and what follows the comma is left. Else the key is trimmed, and the
/// value follows the `=`: a value that starts with `"` runs to the next `"`
/// and is kept as it is; any other value runs to the next `,` and is trimmed.
pub open spec fn read_param(rem: Seq<char>) -> ParamStep {
    let key_end = first_index_of_either(rem, '=', ',');
    let key = trimmed(rem.take(key_end));
    if key_end >= rem.len() {
        ParamStep { pair: None, rest: Seq::empty() }
    } else if rem[key_end] == ',' {
        ParamStep { pair: None, rest: rem.skip(key_end + 1) }
    } else {
        let after = rem.skip(key_end + 1);
        if after.len() > 0 && after[0] == '"' {
            let body = after.skip(1);
            let end = first_index(body, '"');
            ParamStep {
                pair: Some((key, body.take(end))),
                rest: if end < body.len() {
                    body.skip(end + 1)
                } else {
                    Seq::empty()
                },
            }
        } else {
            let end = first_index(after, ',');
            ParamStep { pair: Some((key, trimmed(after.take(end)))), rest: after.skip(end) }
        }
    }
}

/// Where the next parameter starts: after the separating commas, trimmed.
pub open spec fn next_param_start(rest: Seq<char>) -> Seq<char> {
    trimmed(skip_char(rest, ','))
}

/// The parameters read off `rem` one after another, added to `acc`; a later
/// value for a key replaces an earlier one.
pub open spec fn parse_params(rem: Seq<char>, acc: Map<Seq<char>, Seq<char>>) -> Map<
    Seq<char>,
    Seq<char>,
>
    decreases rem.len(),
{
    if rem.len() == 0 {
        acc
    } else {
        let step = read_param(rem);
        let next = next_param_start(step.rest);
        proof {
            lemma_read_param_shrinks(rem);
        }
        parse_params(
            next,
            match step.pair {
                Some((key, value)) => acc.insert(key, value),
                None => acc,
            },
        )
    }
}

/// The challenge that a header value holds: none for a blank header;
/// otherwise the scheme up to the first space, and the parameters after it.
pub open spec fn parse_challenge(header: Seq<char>) -> Option<AuthChallengeView> {
    let h = trimmed(header);
    if h.len() == 0 {
        None
    } else {
        let cut = first_index(h, ' ');
        let rest = if cut < h.len() {
            h.skip(cut + 1)
        } else {
            Seq::empty()
        };
        Some(
            AuthChallengeView {
                scheme: h.take(cut),
                params: parse_params(trimmed(rest), Map::empty()),
            },
        )
    }
}

/// Skipping white space or a run of one character never lengthens a text.
pub proof fn lemma_trim_lengths(s: Seq<char>, c: char)
    ensures
        skip_spaces(s).len() <= s.len(),
        drop_trailing_spaces(s).len() <= s.len(),
        trimmed(s).len() <= s.len(),
        skip_char(s, c).len() <= s.len(),
    decreases s.len(),
{
    if s.len() > 0 {
        lemma_trim_lengths(s.drop_first(), c);
        lemma_trim_lengths(s.drop_last(), c);
    }
    lemma_trim_lengths_back(skip_spaces(s));
}

/// Dropping trailing white space never lengthens a text.
pub proof fn lemma_trim_lengths_back(s: Seq<char>)
    ensures
        drop_trailing_spaces(s).len() <= s.len(),
    decreases s.len(),
{
    if s.len() > 0 {
        lemma_trim_lengths_back(s.drop_last());
    }
}

/// Reading a parameter off a text that is not empty leaves a shorter text.
pub proof fn lemma_read_param_shrinks(rem: Seq<char>)
    requires
        rem.len() > 0,
    ensures
        read_param(rem).rest.len() < rem.len(),
        next_param_start(read_param(rem).rest).len() < rem.len(),
{
    lemma_first_index_of_either(rem, '=', ',');
    let key_end = first_index_of_either(rem, '=', ',');
    if key_end < rem.len() && rem[key_end] != ',' {
        let after = rem.skip(key_end + 1);
        if after.len() > 0 && after[0] == '"' {
            lemma_first_index(after.skip(1), '"');
        } else {
            lemma_first_index(after, ',');
        }
    }
    let rest = read_param(rem).rest;
    lemma_trim_lengths(rest, ',');
    lemma_trim_lengths(skip_char(rest, ','), ',');
}

/// Parses the value of a `WWW-Authenticate` header.
pub fn parse_www_authenticate(header: &str) -> (r: Option<AuthChallenge>)
    ensures
        match r {
            Some(challenge) => parse_challenge(header@) == Some(challenge@),
            None => parse_challenge(header@) is None,
        },
{
    let chars = chars_of(header);
    assert(chars@.subrange(0, chars@.len() as int) == chars@);
    let (start, stop) = trim_at(&chars, 0, chars.len());
    if start == stop {
        return None;
    }
    let ghost h = chars@.subrange(start as int, stop as int);
    let cut = find_char(&chars, start, stop, ' ');
    let scheme = string_of(&chars, start, cut);
    assert(h.take(cut - start) =~= chars@.subrange(start as int, cut as int));
    let rest_start: usize = if cut < stop {
        cut + 1
    } else {
        stop
    };
    let ghost rest = if cut < stop {
        h.skip(cut - start + 1)
    } else {
        Seq::<char>::empty()
    };
    assert(rest =~= chars@.subrange(rest_start as int, stop as int));
    let (first, last) = trim_at(&chars, rest_start, stop);
    let mut pos: usize = first;
    let mut end: usize = last;
    let mut params = ParamMap::new();
    let ghost goal = parse_params(trimmed(rest), Map::empty());
    while pos < end
        invariant
            pos <= end <= chars@.len(),
            parse_params(chars@.subrange(pos as int, end as int), params@) == goal,
        decreases end - pos,
    {
        let ghost rem = chars@.subrange(pos as int, end as int);
        let ghost step = read_param(rem);
        let key_end = find_either(&chars, pos, end, '=', ',');
        assert(rem.take(key_end - pos) =~= chars@.subrange(pos as int, key_end as int));
        let (ka, kb) = trim_at(&chars, pos, key_end);
        let left: usize;
        if key_end < end && chars[key_end] == ',' {
            assert(rem[key_end - pos] == ',');
            left = key_end + 1;
            assert(rem.skip(key_end - pos + 1) =~= chars@.subrange(left as int, end as int));
        } else if key_end < end {
            assert(rem[key_end - pos] == chars@[key_end as int]);
            let key = string_of(&chars, ka, kb);
            let value_start: usize = key_end + 1;
            let ghost after = rem.skip(key_end - pos + 1);
            assert(after =~= chars@.subrange(value_start as int, end as int));
            if value_start < end && chars[value_start] == '"' {
                let body_start: usize = value_start + 1;
                let ghost body = after.skip(1);
                assert(body =~= chars@.subrange(body_start as int, end as int));
                let close = find_char(&chars, body_start, end, '"');
                let value = string_of(&chars, body_start, close);
                assert(body.take(close - body_start) =~= chars@.subrange(
                    body_start as int,
                    close as int,
                ));
                if close < end {
                    left = close + 1;
                    assert(body.skip(close - body_start + 1) =~= chars@.subrange(
                        left as int,
                        end as int,
                    ));
                } else {
                    left = end;
                    assert(Seq::<char>::empty() =~= chars@.subrange(left as int, end as int));
                }
                params.insert(key, value);
            } else {
                assert(!(after.len() > 0 && after[0] == '"'));
                let comma = find_char(&chars, value_start, end, ',');
                assert(after.take(comma - value_start) =~= chars@.subrange(
                    value_start as int,
                    comma as int,
                ));
                let (va, vb) = trim_at(&chars, value_start, comma);
                let value = string_of(&chars, va, vb);
                left = comma;
                assert(after.skip(comma - value_start) =~= chars@.subrange(
                    left as int,
                    end as int,
                ));
                params.insert(key, value);
            }
        } else {
            left = end;
            assert(Seq::<char>::empty() =~= chars@.subrange(left as int, end as int));
        }
        assert(step.rest == chars@.subrange(left as int, end as int));
        let skipped = skip_char_at(&chars, left, end, ',');
        let (p, e) = trim_at(&chars, skipped, end);
        pos = p;
        end = e;
    }
    assert(chars@.subrange(pos as int, end as int).len() == 0);
    Some(AuthChallenge { scheme, params })
}

impl AuthChallenge {
    /// The value that the challenge holds for `name`, if any.
    fn param(&self, name: &str) -> (r: Option<&str>)
        ensures
            match r {
                Some(value) => self@.params.contains_key(name@) && self@.params[name@] == value@,
                None => !self@.params.contains_key(name@),
            },
    {
        match self.params.get(name) {
            Some(value) => Some(value.as_str()),
            None => None,
        }
    }

    /// The `realm` parameter.
    pub fn realm(&self) -> (r: Option<&str>)
        ensures
            match r {
                Some(value) => self@.params.contains_key("realm"@) && self@.params["realm"@]
                    == value@,
                None => !self@.params.contains_key("realm"@),
            },
    {
        self.param("realm")
    }

    /// The `service` parameter, which a `Bearer` challenge carries.
    pub fn service(&self) -> (r: Option<&str>)
        ensures
            match r {
                Some(value) => self@.params.contains_key("service"@) && self@.params["service"@]
                    == value@,
                None => !self@.params.contains_key("service"@),
            },
    {
        self.param("service")
    }

    /// The `scope` parameter, which a `Bearer` challenge carries.
    pub fn scope(&self) -> (r: Option<&str>)
        ensures
            match r {
                Some(value) => self@.params.contains_key("scope"@) && self@.params["scope"@]
                    == value@,
                None => !self@.params.contains_key("scope"@),
            },
    {
        self.param("scope")
    }
}

} // verus!
