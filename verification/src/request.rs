use vstd::prelude::*;

verus! {

/// Largest request body, in bytes, that the HTTP handlers accept.
pub const MAX_BODY_LEN: u64 = 512;

/// Why a request body is refused before it is read.
#[derive(PartialEq, Eq, Structural, Clone, Copy, Debug)]
pub enum BodyError {
    /// The announced body is longer than `MAX_BODY_LEN`.
    TooLarge,
}

/// Number of body bytes to read for a request announcing `content_len`
/// (no announcement means an empty body); bodies above `MAX_BODY_LEN`
/// bytes are refused.
pub fn body_len(content_len: Option<u64>) -> (res: Result<usize, BodyError>)
    ensures
        res is Ok <==> content_len.unwrap_or(0) <= MAX_BODY_LEN,
        res matches Ok(n) ==> n == content_len.unwrap_or(0),
        res matches Err(e) ==> e == BodyError::TooLarge,
{
    let len: u64 = match content_len {
        Some(l) => l,
        None => 0,
    };
    if len > MAX_BODY_LEN {
        Err(BodyError::TooLarge)
    } else {
        Ok(len as usize)
    }
}

/// Body of the REST requests: the alias of the GPIO and, for `/dim`, the
/// brightness in percent.
#[derive(Debug)]
pub struct StateRequest {
    pub alias: String,
    pub dim: Option<u8>,
}

/// The POST endpoints of the REST server.
#[derive(PartialEq, Eq, Structural, Clone, Copy, Debug)]
pub enum RestCommand {
    TurnOn,
    TurnOff,
    Dim,
}

/// What to do with the PWM driver of the addressed GPIO.
#[derive(PartialEq, Eq, Structural, Clone, Copy, Debug)]
pub enum PwmAction {
    Enable,
    Disable,
    /// Set the duty cycle to this percentage of the maximum duty.
    SetDutyPercent(u8),
}

/// The PWM action that a REST command asks for; `/dim` needs a brightness.
pub fn plan_command(command: RestCommand, dim: Option<u8>) -> (res: PwmAction)
    requires
        command == RestCommand::Dim ==> dim is Some,
    ensures
        command == RestCommand::TurnOn ==> res == PwmAction::Enable,
        command == RestCommand::TurnOff ==> res == PwmAction::Disable,
        command == RestCommand::Dim ==> res == PwmAction::SetDutyPercent(dim.unwrap()),
{
    match command {
        RestCommand::TurnOn => PwmAction::Enable,
        RestCommand::TurnOff => PwmAction::Disable,
        RestCommand::Dim => match dim {
            Some(d) => PwmAction::SetDutyPercent(d),
            None => PwmAction::Enable,
        },
    }
}

/// A GPIO counts as active while its duty cycle is not zero.
pub fn is_active(duty: u32) -> (res: bool)
    ensures
        res == (duty != 0),
{
    duty != 0
}

/// `s` with every match of `pat` replaced by `to`, matches taken from the
/// left and not overlapping.
pub open spec fn replace_all(s: Seq<char>, pat: Seq<char>, to: Seq<char>) -> Seq<char>
    decreases s.len(),
{
    if s.len() == 0 {
        seq![]
    } else if 0 < pat.len() <= s.len() && s.take(pat.len() as int) == pat {
        to + replace_all(s.skip(pat.len() as int), pat, to)
    } else {
        seq![s[0]] + replace_all(s.drop_first(), pat, to)
    }
}

/// std's `str::replace`, whose documentation says that it replaces all
/// matches of the pattern with the replacement; the contract states that
/// for a non-empty pattern, matches found from the left without overlap.
#[verifier::external_body]
fn str_replace(s: &str, from: &str, to: &str) -> (res: String)
    requires
        from@.len() > 0,
    ensures
        res@ == replace_all(s@, from@, to@),
{
    s.replace(from, to)
}

/// The pieces of `s` between the occurrences of `sep`, as `str::split`
/// yields them: an empty `s` gives one empty piece, and a separator at
/// either end gives an empty piece there.
pub open spec fn split_on(s: Seq<char>, sep: char) -> Seq<Seq<char>>
    decreases s.len(),
{
    if s.len() == 0 {
        seq![Seq::<char>::empty()]
    } else {
        let rest = split_on(s.drop_first(), sep);
        if s[0] == sep {
            seq![Seq::<char>::empty()] + rest
        } else {
            rest.update(0, seq![s[0]] + rest[0])
        }
    }
}

/// The pair that one `&`-separated piece of a query gives: the text before
/// its first `=` and the text between its first and second `=`; a piece
/// without `=` gives none.
pub open spec fn query_pair(piece: Seq<char>) -> Option<(Seq<char>, Seq<char>)> {
    let parts = split_on(piece, '=');
    if parts.len() >= 2 {
        Some((parts[0], parts[1]))
    } else {
        None
    }
}

/// The pairs of the pieces, in order, skipping the pieces that give none.
pub open spec fn pairs_of_pieces(pieces: Seq<Seq<char>>) -> Seq<(Seq<char>, Seq<char>)>
    decreases pieces.len(),
{
    if pieces.len() == 0 {
        seq![]
    } else {
        match query_pair(pieces[0]) {
            Some(p) => seq![p] + pairs_of_pieces(pieces.drop_first()),
            None => pairs_of_pieces(pieces.drop_first()),
        }
    }
}

/// What `querystring::querify` returns for a query string: the query is
/// split on `&`, and each piece that holds an `=` gives a pair.
pub open spec fn querify_spec(query: Seq<char>) -> Seq<(Seq<char>, Seq<char>)> {
    pairs_of_pieces(split_on(query, '&'))
}

/// `querystring::querify`, which splits the query on `&`, drops the pieces
/// without `=`, and pairs the text before the first `=` of each piece with
/// the text between its first and second `=`. The pairs are handed back as
/// owned strings, in order.
#[verifier::external_body]
fn query_pairs(query: &str) -> (res: Vec<(String, String)>)
    ensures
        res@.map_values(|p: (String, String)| (p.0@, p.1@)) == querify_spec(query@),
{
    querystring::querify(query).into_iter().map(|(k, v)| (k.to_string(), v.to_string())).collect()
}

/// std's `str::split_once`, documented to split the string on the first
/// occurrence of the delimiter and return the prefix before it and the
/// suffix after it, or `None` when the delimiter does not occur.
#[verifier::external_body]
fn str_split_once<'a>(s: &'a str, delimiter: char) -> (res: Option<(&'a str, &'a str)>)
    ensures
        res is None <==> !s@.contains(delimiter),
        res matches Some((before, after)) ==> s@ == before@ + seq![delimiter] + after@
            && !before@.contains(delimiter),
{
    s.split_once(delimiter)
}

/// The query of a URI: what follows its first `?`, if it has one.
pub open spec fn query_part(uri: Seq<char>) -> Option<Seq<char>>
    decreases uri.len(),
{
    if uri.len() == 0 {
        None
    } else if uri[0] == '?' {
        Some(uri.drop_first())
    } else {
        query_part(uri.drop_first())
    }
}

/// The value of the first pair whose key is `key`.
pub open spec fn first_value(pairs: Seq<(Seq<char>, Seq<char>)>, key: Seq<char>) -> Option<Seq<char>>
    decreases pairs.len(),
{
    if pairs.len() == 0 {
        None
    } else if pairs[0].0 == key {
        Some(pairs[0].1)
    } else {
        first_value(pairs.drop_first(), key)
    }
}

/// The value found for a key belongs to the first pair with that key, and
/// no value is found exactly when no pair has the key.
pub proof fn lemma_first_value(pairs: Seq<(Seq<char>, Seq<char>)>, key: Seq<char>)
    ensures
        first_value(pairs, key) is None <==> forall|i: int| 0 <= i < pairs.len() ==> pairs[i].0 != key,
        first_value(pairs, key) matches Some(v) ==> exists|i: int|
            0 <= i < pairs.len() && pairs[i] == (key, v)
                && forall|j: int| 0 <= j < i ==> pairs[j].0 != key,
    decreases pairs.len(),
{
    if pairs.len() > 0 {
        let rest = pairs.drop_first();
        lemma_first_value(rest, key);
        if pairs[0].0 == key {
            assert(pairs[0] == (key, pairs[0].1));
        } else {
            assert forall|i: int| 0 <= i < rest.len() implies rest[i] == pairs[i + 1] by {}
            if first_value(rest, key) is None {
                assert forall|i: int| 0 <= i < pairs.len() implies pairs[i].0 != key by {
                    if i > 0 {
                        assert(pairs[i] == rest[i - 1]);
                    }
                }
            } else {
                let v = first_value(rest, key).unwrap();
                let i = choose|i: int|
                    0 <= i < rest.len() && rest[i] == (key, v) && forall|j: int| 0 <= j < i ==> rest[j].0 != key;
                assert(pairs[i + 1] == (key, v));
                assert forall|j: int| 0 <= j < i + 1 implies pairs[j].0 != key by {
                    if j > 0 {
                        assert(pairs[j] == rest[j - 1]);
                    }
                }
                assert(exists|i2: int| 0 <= i2 < pairs.len() && pairs[i2] == (key, v)
                    && forall|j: int| 0 <= j < i2 ==> pairs[j].0 != key);
                assert(pairs[i + 1].0 == key);
            }
        }
    }
}

/// The view of the strings in query pairs.
pub open spec fn pairs_view(pairs: Seq<(String, String)>) -> Seq<(Seq<char>, Seq<char>)> {
    pairs.map_values(|p: (String, String)| (p.0@, p.1@))
}

/// The view of an optional string.
pub open spec fn opt_view(s: Option<String>) -> Option<Seq<char>> {
    match s {
        Some(v) => Some(v@),
        None => None,
    }
}

/// The value of the first query pair whose key is `key`.
pub fn find_query_value(pairs: &Vec<(String, String)>, key: &String) -> (res: Option<String>)
    ensures
        opt_view(res) == first_value(pairs_view(pairs@), key@),
{
    let ghost all = pairs_view(pairs@);
    assert(all.skip(0) =~= all);
    let mut i: usize = 0;
    while i < pairs.len()
        invariant
            i <= pairs.len(),
            all == pairs_view(pairs@),
            first_value(all, key@) == first_value(all.skip(i as int), key@),
        decreases pairs.len() - i,
    {
        assert(all.skip(i as int)[0] == (pairs@[i as int].0@, pairs@[i as int].1@));
        if pairs[i].0 == *key {
            return Some(pairs[i].1.clone());
        }
        assert(all.skip(i as int).drop_first() =~= all.skip(i + 1));
        i = i + 1;
    }
    assert(all.skip(i as int).len() == 0);
    None
}

/// A URI without `?` has no query.
pub proof fn lemma_query_part_none(uri: Seq<char>)
    requires
        !uri.contains('?'),
    ensures
        query_part(uri) is None,
    decreases uri.len(),
{
    if uri.len() > 0 {
        assert(uri[0] != '?');
        let rest = uri.drop_first();
        assert forall|j: int| 0 <= j < rest.len() implies rest[j] != '?' by {
            assert(rest[j] == uri[j + 1]);
        }
        lemma_query_part_none(rest);
    }
}

/// The query is what follows the first `?`.
pub proof fn lemma_query_part_split(before: Seq<char>, after: Seq<char>)
    requires
        !before.contains('?'),
    ensures
        query_part(before + seq!['?'] + after) == Some(after),
    decreases before.len(),
{
    let uri = before + seq!['?'] + after;
    if before.len() == 0 {
        assert(uri.drop_first() =~= after);
    } else {
        assert(uri[0] == before[0]);
        assert(before[0] != '?');
        let rest = before.drop_first();
        assert forall|j: int| 0 <= j < rest.len() implies rest[j] != '?' by {
            assert(rest[j] == before[j + 1]);
        }
        assert(uri.drop_first() =~= rest + seq!['?'] + after);
        lemma_query_part_split(rest, after);
    }
}

/// The alias that a `/status` request names: every `/status` is removed
/// from the URI, the query after the first `?` is split into pairs, and the
/// value of the first pair with key `alias` is taken (`None` without a
/// query or without such a pair).
pub open spec fn status_query_alias(uri: Seq<char>) -> Option<Seq<char>> {
    match query_part(replace_all(uri, "/status"@, ""@)) {
        Some(q) => first_value(querify_spec(q), "alias"@),
        None => None,
    }
}

/// The GPIO alias named in the URI of a `/status` request, such as
/// `light_1` for `/status?alias=light_1`.
pub fn status_alias(uri: &str) -> (res: Option<String>)
    ensures
        opt_view(res) == status_query_alias(uri@),
{
    proof {
        reveal_strlit("/status");
    }
    let stripped = str_replace(uri, "/status", "");
    match str_split_once(stripped.as_str(), '?') {
        None => {
            proof {
                lemma_query_part_none(stripped@);
            }
            None
        },
        Some((before, query)) => {
            proof {
                lemma_query_part_split(before@, query@);
            }
            let pairs = query_pairs(query);
            let key = "alias".to_owned();
            find_query_value(&pairs, &key)
        },
    }
}

/// `pat` occurs somewhere in `s`.
pub open spec fn contains_pattern(s: Seq<char>, pat: Seq<char>) -> bool {
    exists|i: int| 0 <= i && i + pat.len() <= s.len() && #[trigger] s.subrange(i, i + pat.len()) == pat
}

/// Replacing a pattern that does not occur changes nothing.
pub proof fn lemma_replace_absent(s: Seq<char>, pat: Seq<char>, to: Seq<char>)
    requires
        pat.len() > 0,
        !contains_pattern(s, pat),
    ensures
        replace_all(s, pat, to) == s,
    decreases s.len(),
{
    if s.len() > 0 {
        if pat.len() <= s.len() {
            assert(s.subrange(0, 0int + pat.len()) != pat);
            assert(s.subrange(0, 0int + pat.len()) =~= s.take(pat.len() as int));
        }
        let rest = s.drop_first();
        assert forall|i: int| 0 <= i && i + pat.len() <= rest.len() implies
            #[trigger] rest.subrange(i, i + pat.len()) != pat by {
            assert(rest.subrange(i, i + pat.len()) =~= s.subrange(i + 1, i + 1 + pat.len()));
        }
        lemma_replace_absent(rest, pat, to);
        assert(replace_all(s, pat, to) == seq![s[0]] + replace_all(rest, pat, to));
        assert(seq![s[0]] + rest =~= s);
    }
}

/// Splitting a text without the separator gives the text itself.
pub proof fn lemma_split_without_separator(s: Seq<char>, sep: char)
    requires
        !s.contains(sep),
    ensures
        split_on(s, sep) == seq![s],
    decreases s.len(),
{
    if s.len() > 0 {
        let rest = s.drop_first();
        assert(s[0] != sep);
        assert forall|j: int| 0 <= j < rest.len() implies rest[j] != sep by {
            assert(rest[j] == s[j + 1]);
        }
        lemma_split_without_separator(rest, sep);
        assert(split_on(s, sep) == split_on(rest, sep).update(0, seq![s[0]] + split_on(rest, sep)[0]));
        assert(split_on(rest, sep)[0] == rest);
        assert(seq![s[0]] + rest =~= s);
        assert(seq![rest].update(0, s) =~= seq![s]);
    } else {
        assert(s =~= Seq::<char>::empty());
    }
}

/// The first piece ends at the first separator.
pub proof fn lemma_split_at_first_separator(first: Seq<char>, rest: Seq<char>, sep: char)
    requires
        !first.contains(sep),
    ensures
        split_on(first + seq![sep] + rest, sep) == seq![first] + split_on(rest, sep),
    decreases first.len(),
{
    let s = first + seq![sep] + rest;
    if first.len() == 0 {
        assert(s.drop_first() =~= rest);
        assert(s[0] == sep);
        assert(split_on(s, sep) == seq![Seq::<char>::empty()] + split_on(s.drop_first(), sep));
        assert(first =~= Seq::<char>::empty());
    } else {
        let tail = first.drop_first();
        assert(s[0] == first[0]);
        assert(first[0] != sep);
        assert forall|j: int| 0 <= j < tail.len() implies tail[j] != sep by {
            assert(tail[j] == first[j + 1]);
        }
        assert(s.drop_first() =~= tail + seq![sep] + rest);
        lemma_split_at_first_separator(tail, rest, sep);
        let inner = split_on(s.drop_first(), sep);
        assert(inner == seq![tail] + split_on(rest, sep));
        assert(split_on(s, sep) == inner.update(0, seq![s[0]] + inner[0]));
        assert(inner[0] == tail);
        assert(seq![first[0]] + tail =~= first);
        assert(inner.update(0, first) =~= seq![first] + split_on(rest, sep));
    }
}

/// The documented request form `/status?alias=<alias>` names `<alias>`,
/// for an alias that holds no `&` or `=` (which would end it) and no
/// `/status` (which is removed from the URI).
pub proof fn lemma_status_documented_form(alias: Seq<char>)
    requires
        !alias.contains('&'),
        !alias.contains('='),
        !contains_pattern(alias, "/status"@),
    ensures
        status_query_alias("/status?alias="@ + alias) == Some(alias),
{
    reveal_strlit("/status");
    reveal_strlit("/status?alias=");
    reveal_strlit("alias");
    reveal_strlit("");
    let pat = "/status"@;
    let key = "alias"@;
    let pair_text = key + seq!['='] + alias;
    let rest = seq!['?'] + pair_text;
    let uri = "/status?alias="@ + alias;
    assert(uri =~= pat + rest);
    assert forall|i: int| 0 <= i && i + pat.len() <= rest.len() implies
        #[trigger] rest.subrange(i, i + pat.len()) != pat by {
        if i < 7 {
            assert(rest.subrange(i, i + pat.len())[0] == rest[i]);
            assert(rest[i] != '/');
        } else {
            assert(rest.subrange(i, i + pat.len()) =~= alias.subrange(i - 7, i - 7 + pat.len()));
        }
    }
    lemma_replace_absent(rest, pat, ""@);
    assert(uri.take(pat.len() as int) =~= pat);
    assert(uri.skip(pat.len() as int) =~= rest);
    assert(replace_all(uri, pat, ""@) == ""@ + rest);
    assert(""@ + rest =~= rest);
    assert(query_part(rest) == Some(pair_text)) by {
        assert(rest.drop_first() =~= pair_text);
    }
    assert(!pair_text.contains('&')) by {
        assert forall|j: int| 0 <= j < pair_text.len() implies pair_text[j] != '&' by {
            if j >= 6 {
                assert(pair_text[j] == alias[j - 6]);
            }
        }
    }
    lemma_split_without_separator(pair_text, '&');
    assert(!key.contains('=')) by {
        assert forall|j: int| 0 <= j < key.len() implies key[j] != '=' by {}
    }
    lemma_split_at_first_separator(key, alias, '=');
    lemma_split_without_separator(alias, '=');
    assert(split_on(pair_text, '=') =~= seq![key, alias]);
    assert(query_pair(pair_text) == Some((key, alias)));
    assert(seq![pair_text].drop_first().len() == 0);
    let pieces = split_on(pair_text, '&');
    assert(pieces == seq![pair_text]);
    assert(pieces.drop_first().len() == 0);
    assert(pairs_of_pieces(pieces.drop_first()) == Seq::<(Seq<char>, Seq<char>)>::empty());
    assert(pairs_of_pieces(pieces) == seq![(key, alias)] + Seq::<(Seq<char>, Seq<char>)>::empty());
    assert(querify_spec(pair_text) =~= seq![(key, alias)]);
    assert(first_value(seq![(key, alias)], key) == Some(alias));
}

} // verus!
