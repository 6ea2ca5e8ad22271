use vstd::prelude::*;

use crate::text::{
    chars_of, contains_char, contains_chars, contains_seq, first_stop, first_stop_from,
    is_white_space, matches_at, slice_chars, starts_with, string_from_chars, trim, trim_chars,
    white_space,
};

verus! {

// ---------------------------------------------------------------------------
// Model of URL normalization
// ---------------------------------------------------------------------------

pub open spec fn is_ascii_digit(c: char) -> bool {
    '0' <= c <= '9'
}

/// Value of a run of decimal digits.
pub open spec fn digits_value(d: Seq<char>) -> nat
    decreases d.len(),
{
    if d.len() == 0 {
        0
    } else {
        digits_value(d.drop_last()) * 10 + ((d.last() as int) - 48) as nat
    }
}

/// The digits part of a `u8` literal: the text after an optional leading
/// `+`.
pub open spec fn u8_digits(p: Seq<char>) -> Seq<char> {
    if p.len() > 0 && p[0] == '+' {
        p.drop_first()
    } else {
        p
    }
}

/// Whether `p` is accepted by `u8`'s `FromStr`: an optional `+` sign
/// followed by one or more decimal digits whose value is at most 255.
pub open spec fn parses_as_u8(p: Seq<char>) -> bool {
    &&& u8_digits(p).len() > 0
    &&& forall|i: int| 0 <= i < u8_digits(p).len() ==> is_ascii_digit(#[trigger] u8_digits(p)[i])
    &&& digits_value(u8_digits(p)) <= 255
}

/// The pieces of `s` between `.` characters (empty pieces included).
pub open spec fn split_dots(s: Seq<char>) -> Seq<Seq<char>>
    decreases s.len(),
{
    let k = first_stop(s, seq!['.']);
    if k >= s.len() {
        seq![s]
    } else {
        seq![s.subrange(0, k as int)] + split_dots(s.subrange((k + 1) as int, s.len() as int))
    }
}

/// Whether the input starts with an IPv4 address, optionally followed by a
/// port or path: the text before the first `/`, `?` or `#`, cut at its
/// first `:`, splits at `.` into exactly four pieces that each parse as a
/// `u8`.
pub open spec fn looks_like_ipv4_address(s: Seq<char>) -> bool {
    let host = s.subrange(0, first_stop(s, seq!['/', '?', '#']) as int);
    let address = host.subrange(0, first_stop(host, seq![':']) as int);
    let octets = split_dots(address);
    octets.len() == 4 && forall|i: int| 0 <= i < 4 ==> parses_as_u8(#[trigger] octets[i])
}

/// Whether the input resembles a direct host or address entry.
pub open spec fn looks_like_direct_address(s: Seq<char>) -> bool {
    starts_with(s, "localhost"@) || looks_like_ipv4_address(s) || s.contains('.')
}

/// The maximal runs of non-whitespace characters of `s`, in order.
pub open spec fn words(s: Seq<char>) -> Seq<Seq<char>>
    decreases s.len(),
{
    if s.len() == 0 {
        Seq::empty()
    } else if is_white_space(s.last()) {
        words(s.drop_last())
    } else if s.len() >= 2 && !is_white_space(s[s.len() - 2]) {
        let w = words(s.drop_last());
        w.update(w.len() - 1, w.last().push(s.last()))
    } else {
        words(s.drop_last()).push(seq![s.last()])
    }
}

/// The words joined with `+` between consecutive ones.
pub open spec fn join_plus(ws: Seq<Seq<char>>) -> Seq<char>
    decreases ws.len(),
{
    if ws.len() == 0 {
        Seq::empty()
    } else if ws.len() == 1 {
        ws[0]
    } else {
        join_plus(ws.drop_last()) + seq!['+'] + ws.last()
    }
}

pub open spec fn search_prefix() -> Seq<char> {
    "https://www.google.com/search?q="@
}

/// Search URL for free-form query text: its words joined with `+`.
pub open spec fn search_url(query: Seq<char>) -> Seq<char> {
    search_prefix() + join_plus(words(query))
}

/// Final URL for raw navigation input.
///
/// The input is trimmed; empty input stays empty; input holding a space is
/// a search; input holding `://` is kept as it is; a direct address gets an
/// `https://` prefix; anything else is a search.
pub open spec fn normalized_url(input: Seq<char>) -> Seq<char> {
    let t = trim(input);
    if t.len() == 0 {
        t
    } else if t.contains(' ') {
        search_url(t)
    } else if contains_seq(t, "://"@) {
        t
    } else if looks_like_direct_address(t) {
        "https://"@ + t
    } else {
        search_url(t)
    }
}

// ---------------------------------------------------------------------------
// Lemmas
// ---------------------------------------------------------------------------

/// With all digits, the value of a prefix never exceeds the value of the
/// whole.
pub proof fn lemma_digits_value_prefix(d: Seq<char>, m: int)
    requires
        0 <= m <= d.len(),
        forall|i: int| 0 <= i < d.len() ==> is_ascii_digit(#[trigger] d[i]),
    ensures
        digits_value(d.subrange(0, m)) <= digits_value(d),
    decreases d.len() - m,
{
    if m < d.len() {
        let t = d.drop_last();
        assert forall|i: int| 0 <= i < t.len() implies is_ascii_digit(#[trigger] t[i]) by {
            assert(t[i] == d[i]);
        }
        lemma_digits_value_prefix(t, m);
        assert(t.subrange(0, m) =~= d.subrange(0, m));
    } else {
        assert(d.subrange(0, m) =~= d);
    }
}

pub proof fn lemma_words_nonempty(s: Seq<char>)
    ensures
        forall|i: int| 0 <= i < words(s).len() ==> (#[trigger] words(s)[i]).len() > 0,
    decreases s.len(),
{
    if s.len() > 0 {
        let t = s.drop_last();
        lemma_words_nonempty(t);
        let w = words(t);
        if is_white_space(s.last()) {
        } else if s.len() >= 2 && !is_white_space(s[s.len() - 2]) {
            assert(t.last() == s[s.len() - 2]);
            lemma_words_last(t);
            assert forall|i: int| 0 <= i < words(s).len() implies (#[trigger] words(s)[i]).len() > 0 by {
                if i != w.len() - 1 {
                    assert(words(s)[i] == w[i]);
                }
            }
        } else {
            assert forall|i: int| 0 <= i < words(s).len() implies (#[trigger] words(s)[i]).len() > 0 by {
                if i < w.len() {
                    assert(words(s)[i] == w[i]);
                }
            }
        }
    }
}

/// Appending a character to `s` and re-splitting: a whitespace character
/// adds nothing; a non-whitespace character extends the last word when `s`
/// ends inside a word and starts a new word otherwise.
pub proof fn lemma_words_push(s: Seq<char>, c: char)
    ensures
        is_white_space(c) ==> words(s.push(c)) == words(s),
        !is_white_space(c) && s.len() > 0 && !is_white_space(s.last()) ==> words(s).len() > 0
            && words(s.push(c)) == words(s).update(
            words(s).len() - 1,
            words(s).last().push(c),
        ),
        !is_white_space(c) && !(s.len() > 0 && !is_white_space(s.last())) ==> words(s.push(c)) == words(
            s,
        ).push(seq![c]),
{
    let t = s.push(c);
    assert(t.drop_last() =~= s);
    assert(t.last() == c);
    if s.len() > 0 {
        assert(t[t.len() - 2] == s.last());
        if !is_white_space(s.last()) {
            lemma_words_last(s);
        }
    }
}

/// A text that ends in a non-whitespace character has at least one word.
pub proof fn lemma_words_last(s: Seq<char>)
    requires
        s.len() > 0,
        !is_white_space(s.last()),
    ensures
        words(s).len() > 0,
    decreases s.len(),
{
    if s.len() >= 2 && !is_white_space(s[s.len() - 2]) {
        let t = s.drop_last();
        assert(t.last() == s[s.len() - 2]);
        lemma_words_last(t);
    }
}

/// Joining after extending the last word appends the character.
pub proof fn lemma_join_extend(ws: Seq<Seq<char>>, c: char)
    requires
        ws.len() > 0,
    ensures
        join_plus(ws.update(ws.len() - 1, ws.last().push(c))) == join_plus(ws).push(c),
{
    let u = ws.update(ws.len() - 1, ws.last().push(c));
    if ws.len() > 1 {
        assert(u.drop_last() =~= ws.drop_last());
        assert(join_plus(u) =~= join_plus(ws).push(c));
    }
}

/// Joining after adding a word appends `+` (unless it is the first word)
/// and the word.
pub proof fn lemma_join_push(ws: Seq<Seq<char>>, w: Seq<char>)
    ensures
        join_plus(ws.push(w)) == if ws.len() == 0 {
            w
        } else {
            join_plus(ws) + seq!['+'] + w
        },
{
    assert(ws.push(w).drop_last() =~= ws);
}

/// The join of non-empty words is empty exactly when there are no words.
pub proof fn lemma_join_empty(ws: Seq<Seq<char>>)
    requires
        forall|i: int| 0 <= i < ws.len() ==> (#[trigger] ws[i]).len() > 0,
    ensures
        (join_plus(ws).len() == 0) == (ws.len() == 0),
    decreases ws.len(),
{
    if ws.len() > 1 {
        assert(ws.last() == ws[ws.len() - 1]);
    } else if ws.len() == 1 {
        assert(ws[0].len() > 0);
    }
}

// ---------------------------------------------------------------------------
// Laws
// ---------------------------------------------------------------------------

/// Text with no whitespace character anywhere.
pub open spec fn no_white_space(s: Seq<char>) -> bool {
    forall|i: int| 0 <= i < s.len() ==> !is_white_space(#[trigger] s[i])
}

/// Every character of every word is non-whitespace.
pub proof fn lemma_words_clean(s: Seq<char>)
    ensures
        forall|i: int| 0 <= i < words(s).len() ==> no_white_space(#[trigger] words(s)[i]),
    decreases s.len(),
{
    if s.len() > 0 {
        let t = s.drop_last();
        lemma_words_clean(t);
        let w = words(t);
        if is_white_space(s.last()) {
        } else if s.len() >= 2 && !is_white_space(s[s.len() - 2]) {
            assert(t.last() == s[s.len() - 2]);
            lemma_words_last(t);
            assert forall|i: int| 0 <= i < words(s).len() implies no_white_space(#[trigger] words(s)[i]) by {
                if i != w.len() - 1 {
                    assert(words(s)[i] == w[i]);
                } else {
                    assert(words(s)[i] == w[i].push(s.last()));
                    assert(no_white_space(w[i]));
                    assert forall|k: int| 0 <= k < words(s)[i].len() implies !is_white_space(#[trigger] words(s)[i][k]) by {
                        if k < w[i].len() {
                            assert(words(s)[i][k] == w[i][k]);
                        }
                    }
                }
            }
        } else {
            assert forall|i: int| 0 <= i < words(s).len() implies no_white_space(#[trigger] words(s)[i]) by {
                if i < w.len() {
                    assert(words(s)[i] == w[i]);
                }
            }
        }
    }
}

/// Joining whitespace-free words with `+` gives whitespace-free text.
pub proof fn lemma_join_clean(ws: Seq<Seq<char>>)
    requires
        forall|i: int| 0 <= i < ws.len() ==> no_white_space(#[trigger] ws[i]),
    ensures
        no_white_space(join_plus(ws)),
    decreases ws.len(),
{
    if ws.len() == 1 {
        assert(no_white_space(ws[0]));
    } else if ws.len() > 1 {
        let d = ws.drop_last();
        assert forall|i: int| 0 <= i < d.len() implies no_white_space(#[trigger] d[i]) by {
            assert(d[i] == ws[i]);
        }
        lemma_join_clean(d);
        let j = join_plus(ws);
        let a = join_plus(d);
        let l = ws.last();
        assert(no_white_space(l)) by {
            assert(l == ws[ws.len() - 1]);
        }
        assert forall|k: int| 0 <= k < j.len() implies !is_white_space(#[trigger] j[k]) by {
            if k < a.len() {
                assert(j[k] == a[k]);
            } else if k == a.len() {
                assert(j[k] == '+');
            } else {
                assert(j[k] == l[k - a.len() - 1]);
            }
        }
    }
}

/// Text that is empty or starts and ends with non-whitespace is its own
/// trim.
pub proof fn lemma_trim_fixed(u: Seq<char>)
    requires
        u.len() == 0 || (!is_white_space(u[0]) && !is_white_space(u.last())),
    ensures
        trim(u) == u,
{
    if u.len() > 0 {
        crate::text::lemma_trim_start(u, 0);
        assert(u.subrange(0, u.len() as int) =~= u);
        crate::text::lemma_trim_end(u, u.len() as int);
    }
}

/// Trimmed text is empty or starts and ends with non-whitespace.
pub proof fn lemma_trim_shape(s: Seq<char>)
    ensures
        trim(s).len() == 0 || (!is_white_space(trim(s)[0]) && !is_white_space(trim(s).last())),
    decreases s.len(),
{
    lemma_trim_start_shape(s);
    lemma_trim_end_shape(crate::text::trim_start(s));
}

proof fn lemma_trim_start_shape(s: Seq<char>)
    ensures
        crate::text::trim_start(s).len() == 0 || !is_white_space(crate::text::trim_start(s)[0]),
    decreases s.len(),
{
    if s.len() > 0 && is_white_space(s[0]) {
        lemma_trim_start_shape(s.drop_first());
    }
}

proof fn lemma_trim_end_shape(s: Seq<char>)
    requires
        s.len() == 0 || !is_white_space(s[0]),
    ensures
        crate::text::trim_end(s).len() == 0 || (!is_white_space(crate::text::trim_end(s)[0])
            && !is_white_space(crate::text::trim_end(s).last())),
    decreases s.len(),
{
    if s.len() > 0 && is_white_space(s.last()) {
        let t = s.drop_last();
        if t.len() > 0 {
            assert(t[0] == s[0]);
        }
        lemma_trim_end_shape(t);
    }
}

/// A search URL is free of whitespace, non-empty, and holds `://`.
pub proof fn lemma_search_url_shape(q: Seq<char>)
    ensures
        no_white_space(search_url(q)),
        search_url(q).len() > 0,
        contains_seq(search_url(q), "://"@),
{
    reveal_strlit("https://www.google.com/search?q=");
    reveal_strlit("://");
    lemma_words_clean(q);
    lemma_join_clean(words(q));
    let p = search_prefix();
    let j = join_plus(words(q));
    let u = search_url(q);
    assert forall|k: int| 0 <= k < u.len() implies !is_white_space(#[trigger] u[k]) by {
        if k < p.len() {
            assert(u[k] == p[k]);
        } else {
            assert(u[k] == j[k - p.len()]);
        }
    }
    assert(u.subrange(5, 8) =~= "://"@);
    assert(crate::text::occurs_at(u, "://"@, 5));
}

/// A host typed without a scheme is loaded over HTTPS: input that, once
/// trimmed, is not empty, holds no space and no `://`, and contains a dot
/// or starts with `localhost`, becomes `https://` followed by the trimmed
/// input, whatever the host looks like otherwise.
pub proof fn law_direct_address_gets_https(input: Seq<char>)
    requires
        trim(input).len() > 0,
        !trim(input).contains(' '),
        !contains_seq(trim(input), "://"@),
        trim(input).contains('.') || starts_with(trim(input), "localhost"@),
    ensures
        normalized_url(input) == "https://"@ + trim(input),
{
}

/// How input is read, by the trimmed input `t`: blank input stays empty;
/// input holding a space is a search for its words; otherwise input that
/// already names a scheme (`://`) is kept as typed (trimmed); and input that
/// looks like no address at all (no dot, not `localhost`, not an IPv4
/// address) is a search too.
pub proof fn law_normalization_cases(input: Seq<char>)
    ensures
        trim(input).len() == 0 ==> normalized_url(input).len() == 0,
        trim(input).contains(' ') ==> normalized_url(input) == search_prefix() + join_plus(
            words(trim(input)),
        ),
        trim(input).len() > 0 && !trim(input).contains(' ') && contains_seq(trim(input), "://"@)
            ==> normalized_url(input) == trim(input),
        trim(input).len() > 0 && !trim(input).contains(' ') && !contains_seq(trim(input), "://"@)
            && !trim(input).contains('.') && !starts_with(trim(input), "localhost"@)
            && !looks_like_ipv4_address(trim(input)) ==> normalized_url(input) == search_prefix()
            + join_plus(words(trim(input))),
{
}

/// Normalization is idempotent: a normalized URL normalizes to itself.
pub proof fn law_normalization_idempotent(input: Seq<char>)
    ensures
        normalized_url(normalized_url(input)) == normalized_url(input),
{
    reveal_strlit("https://");
    reveal_strlit("://");
    let t = trim(input);
    let n = normalized_url(input);
    lemma_trim_shape(input);
    if t.len() == 0 {
        assert(n == t);
        lemma_trim_fixed(t);
    } else if t.contains(' ') || !(contains_seq(t, "://"@) || looks_like_direct_address(t)) {
        assert(n == search_url(t));
        lemma_search_url_shape(t);
        lemma_trim_fixed(n);
        assert(!n.contains(' ')) by {
            if n.contains(' ') {
                let k = choose|k: int| 0 <= k < n.len() && n[k] == ' ';
                assert(!is_white_space(n[k]));
            }
        }
    } else if contains_seq(t, "://"@) {
        assert(n == t);
        lemma_trim_fixed(t);
    } else {
        assert(n == "https://"@ + t);
        assert(n[0] == 'h');
        assert(n.last() == t.last());
        lemma_trim_fixed(n);
        assert(!n.contains(' ')) by {
            if n.contains(' ') {
                let k = choose|k: int| 0 <= k < n.len() && n[k] == ' ';
                if k >= 8 {
                    assert(n[k] == t[k - 8]);
                }
            }
        }
        assert(n.subrange(5, 8) =~= "://"@);
        assert(crate::text::occurs_at(n, "://"@, 5));
    }
}

// ---------------------------------------------------------------------------
// Executable pieces
// ---------------------------------------------------------------------------

/// Whether the characters form a valid `u8` literal as `FromStr` reads it.
fn parses_as_u8_exec(p: &Vec<char>) -> (r: bool)
    ensures
        r == parses_as_u8(p@),
{
    let n = p.len();
    if n == 0 {
        return false;
    }
    let start: usize = if p[0] == '+' {
        1
    } else {
        0
    };
    let ghost d = u8_digits(p@);
    assert(d =~= p@.subrange(start as int, n as int));
    if start == n {
        return false;
    }
    let mut value: u32 = 0;
    let mut i: usize = start;
    while i < n
        invariant
            start <= i <= n == p.len(),
            d == u8_digits(p@),
            d == p@.subrange(start as int, n as int),
            forall|k: int| 0 <= k < i - start ==> is_ascii_digit(#[trigger] d[k]),
            value as nat == digits_value(d.subrange(0, i - start)),
            value <= 255,
        decreases n - i,
    {
        let c = p[i];
        assert(c == d[i - start]);
        if !('0' <= c && c <= '9') {
            assert(!is_ascii_digit(d[i - start]));
            return false;
        }
        let digit = (c as u32) - 48;
        let ghost prefix = d.subrange(0, i - start + 1);
        assert(prefix.drop_last() =~= d.subrange(0, i - start));
        assert(prefix.last() == c);
        value = value * 10 + digit;
        i += 1;
        if value > 255 {
            proof {
                if forall|k: int| 0 <= k < d.len() ==> is_ascii_digit(#[trigger] d[k]) {
                    lemma_digits_value_prefix(d, i - start);
                    assert(digits_value(d) > 255);
                }
            }
            return false;
        }
    }
    assert(d.subrange(0, n - start) =~= d);
    true
}

/// Whether the characters start with an IPv4 address.
fn looks_like_ipv4_exec(v: &Vec<char>) -> (r: bool)
    ensures
        r == looks_like_ipv4_address(v@),
{
    let host_stops = vec!['/', '?', '#'];
    assert(host_stops@ =~= seq!['/', '?', '#']);
    let host_len = first_stop_from(v, 0, &host_stops);
    assert(v@.subrange(0, v@.len() as int) =~= v@);
    let host = slice_chars(v, 0, host_len);
    let colon = vec![':'];
    assert(colon@ =~= seq![':']);
    let address_len = first_stop_from(&host, 0, &colon);
    assert(host@.subrange(0, host@.len() as int) =~= host@);
    let address = slice_chars(&host, 0, address_len);
    let dot = vec!['.'];
    assert(dot@ =~= seq!['.']);
    let n = address.len();
    let mut start: usize = 0;
    let mut count: usize = 0;
    let mut all_parse = true;
    let ghost mut done: Seq<Seq<char>> = Seq::empty();
    assert(address@.subrange(0, n as int) =~= address@);
    assert(split_dots(address@) =~= done + split_dots(address@.subrange(0, n as int)));
    let ghost host_spec = v@.subrange(0, first_stop(v@, seq!['/', '?', '#']) as int);
    assert(host@ == host_spec);
    assert(address@ == host_spec.subrange(0, first_stop(host_spec, seq![':']) as int));
    loop
        invariant
            n == address.len(),
            address@ == host_spec.subrange(0, first_stop(host_spec, seq![':']) as int),
            host_spec == v@.subrange(0, first_stop(v@, seq!['/', '?', '#']) as int),
            dot@ == seq!['.'],
            start <= n,
            count == if done.len() < 5 { done.len() } else { 5 },
            split_dots(address@) == done + split_dots(address@.subrange(start as int, n as int)),
            all_parse == forall|i: int| 0 <= i < done.len() ==> parses_as_u8(#[trigger] done[i]),
        decreases n - start,
    {
        let ghost rest = address@.subrange(start as int, n as int);
        let k = first_stop_from(&address, start, &dot);
        let piece = slice_chars(&address, start, start + k);
        assert(piece@ =~= rest.subrange(0, k as int));
        let ok = parses_as_u8_exec(&piece);
        proof {
            if k >= rest.len() {
                assert(piece@ =~= rest);
            } else {
                assert(rest.subrange(k + 1, rest.len() as int) =~= address@.subrange(start + k + 1, n as int));
            }
            let old_done = done;
            done = done.push(piece@);
            assert forall|i: int| 0 <= i < old_done.len() implies done[i] == old_done[i] by {}
            assert(done[done.len() - 1] == piece@);
        }
        all_parse = all_parse && ok;
        if count < 5 {
            count = count + 1;
        }
        if start + k >= n {
            assert(split_dots(address@) =~= done);
            return count == 4 && all_parse;
        }
        start = start + k + 1;
        assert(split_dots(address@) =~= done + split_dots(address@.subrange(start as int, n as int)));
    }
}

/// Search URL for the query characters.
fn search_url_exec(query: &Vec<char>) -> (r: Vec<char>)
    ensures
        r@ == search_url(query@),
{
    let mut out = chars_of("https://www.google.com/search?q=");
    let ghost prefix = out@;
    let prefix_len = out.len();
    let mut in_word = false;
    let n = query.len();
    for i in 0..n
        invariant
            n == query.len(),
            prefix == search_prefix(),
            prefix_len == prefix.len(),
            out@ == prefix + join_plus(words(query@.subrange(0, i as int))),
            in_word == (i > 0 && !is_white_space(query@[i - 1])),
    {
        let c = query[i];
        let ghost s = query@.subrange(0, i as int);
        assert(query@.subrange(0, i + 1) =~= s.push(c));
        proof {
            lemma_words_push(s, c);
            if i > 0 {
                assert(s.last() == query@[i - 1]);
            }
            lemma_words_nonempty(s);
            lemma_join_empty(words(s));
        }
        if white_space(c) {
            in_word = false;
        } else if in_word {
            out.push(c);
            in_word = true;
            proof {
                lemma_join_extend(words(s), c);
            }
            assert(out@ =~= prefix + join_plus(words(query@.subrange(0, i + 1))));
        } else {
            if out.len() > prefix_len {
                out.push('+');
            }
            out.push(c);
            in_word = true;
            proof {
                lemma_join_push(words(s), seq![c]);
            }
            assert(out@ =~= prefix + join_plus(words(query@.subrange(0, i + 1))));
        }
    }
    assert(query@.subrange(0, n as int) =~= query@);
    out
}

/// Whether the characters resemble a direct host or address entry.
fn looks_like_direct_address_exec(v: &Vec<char>) -> (r: bool)
    ensures
        r == looks_like_direct_address(v@),
{
    let localhost = chars_of("localhost");
    matches_at(v, &localhost, 0) || looks_like_ipv4_exec(v) || contains_char(v, '.')
}

/// Normalizes raw navigation input into a final URL (see [normalized_url]).
pub fn normalize_input(input: String) -> (r: String)
    ensures
        r@ == normalized_url(input@),
{
    let raw = chars_of(input.as_str());
    let t = trim_chars(&raw);
    if t.len() == 0 {
        return string_from_chars(&t);
    }
    if contains_char(&t, ' ') {
        return string_from_chars(&search_url_exec(&t));
    }
    let scheme_mark = chars_of("://");
    if contains_chars(&t, &scheme_mark) {
        return string_from_chars(&t);
    }
    if looks_like_direct_address_exec(&t) {
        let mut out = chars_of("https://");
        let ghost prefix = out@;
        for i in 0..t.len()
            invariant
                out@ == prefix + t@.subrange(0, i as int),
        {
            out.push(t[i]);
            assert(out@ =~= prefix + t@.subrange(0, i + 1));
        }
        assert(t@.subrange(0, t@.len() as int) =~= t@);
        return string_from_chars(&out);
    }
    string_from_chars(&search_url_exec(&t))
}

/// Owns URL normalization for user navigation input.
///
/// Responsibilities: turn raw input into a final URL. Tab lifecycle,
/// history and platform interaction belong elsewhere.
#[derive(Debug, Clone, Copy)]
pub struct NavigationController;

impl NavigationController {
    /// Creates a URL-normalization controller.
    pub fn new() -> (r: Self) {
        NavigationController
    }

    /// Normalizes raw user input and returns the final URL: free-form
    /// queries become search URLs, direct addresses without a scheme get an
    /// `https://` prefix, and input with a scheme is kept as it is.
    pub fn navigate(&self, input: String) -> (r: String)
        ensures
            r@ == normalized_url(input@),
    {
        normalize_input(input)
    }
}


impl Default for NavigationController {
    fn default() -> (r: Self) {
        NavigationController::new()
    }
}

} // verus!
