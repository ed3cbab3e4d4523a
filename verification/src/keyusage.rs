//! Key-usage selector parsing.
//!
//! A selector is a comma-separated string such as
//! `"digital_signature, crl_sign"`. Each token is trimmed of
//! whitespace and matched case-sensitively against the nine known
//! key-usage names; unrecognized tokens are dropped silently.

use vstd::prelude::*;

verus! {

/// One key-usage purpose of a certificate.
#[derive(Debug, Clone, Copy, PartialEq, Eq, Structural)]
pub enum KeyUsageFlag {
    DigitalSignature,
    ContentCommitment,
    KeyEncipherment,
    DataEncipherment,
    KeyAgreement,
    KeyCertSign,
    CrlSign,
    EncipherOnly,
    DecipherOnly,
}

/// A character with the Unicode `White_Space` property, the set that
/// `str::trim` removes.
pub open spec fn spec_is_space(c: char) -> bool {
    let u = c as u32;
    (9 <= u && u <= 13) || u == 0x20 || u == 0x85 || u == 0xA0 || u == 0x1680 || (0x2000 <= u && u
        <= 0x200A) || u == 0x2028 || u == 0x2029 || u == 0x202F || u == 0x205F || u == 0x3000
}

/// The sequence without its leading whitespace.
pub open spec fn spec_trim_start(s: Seq<char>) -> Seq<char>
    decreases s.len(),
{
    if s.len() > 0 && spec_is_space(s.first()) {
        spec_trim_start(s.drop_first())
    } else {
        s
    }
}

/// The sequence without its trailing whitespace.
pub open spec fn spec_trim_end(s: Seq<char>) -> Seq<char>
    decreases s.len(),
{
    if s.len() > 0 && spec_is_space(s.last()) {
        spec_trim_end(s.drop_last())
    } else {
        s
    }
}

/// The sequence without leading and trailing whitespace.
pub open spec fn spec_trim(s: Seq<char>) -> Seq<char> {
    spec_trim_end(spec_trim_start(s))
}

/// The pieces of `s` between its commas, in order. A sequence without
/// commas is one piece; every comma ends a piece, so `n` commas give
/// `n + 1` pieces.
pub open spec fn spec_split_commas(s: Seq<char>) -> Seq<Seq<char>>
    decreases s.len(),
{
    if s.len() == 0 {
        seq![Seq::<char>::empty()]
    } else if s.first() == ',' {
        seq![Seq::<char>::empty()] + spec_split_commas(s.drop_first())
    } else {
        let rest = spec_split_commas(s.drop_first());
        seq![seq![s.first()] + rest.first()] + rest.drop_first()
    }
}

/// The key-usage flag named by a trimmed token, or `None` for an
/// unrecognized token.
pub open spec fn spec_token_flag(t: Seq<char>) -> Option<KeyUsageFlag> {
    if t == "digital_signature"@ {
        Some(KeyUsageFlag::DigitalSignature)
    } else if t == "content_commitment"@ {
        Some(KeyUsageFlag::ContentCommitment)
    } else if t == "key_encipherment"@ {
        Some(KeyUsageFlag::KeyEncipherment)
    } else if t == "data_encipherment"@ {
        Some(KeyUsageFlag::DataEncipherment)
    } else if t == "key_agreement"@ {
        Some(KeyUsageFlag::KeyAgreement)
    } else if t == "key_cert_sign"@ {
        Some(KeyUsageFlag::KeyCertSign)
    } else if t == "crl_sign"@ {
        Some(KeyUsageFlag::CrlSign)
    } else if t == "encipher_only"@ {
        Some(KeyUsageFlag::EncipherOnly)
    } else if t == "decipher_only"@ {
        Some(KeyUsageFlag::DecipherOnly)
    } else {
        None
    }
}

/// The flags of a token list: each token trimmed and matched, with
/// unrecognized tokens contributing nothing.
pub open spec fn spec_tokens_flags(ts: Seq<Seq<char>>) -> Seq<KeyUsageFlag>
    decreases ts.len(),
{
    if ts.len() == 0 {
        Seq::empty()
    } else {
        (match spec_token_flag(spec_trim(ts.first())) {
            Some(f) => seq![f],
            None => Seq::empty(),
        }) + spec_tokens_flags(ts.drop_first())
    }
}

/// The flags selected by a comma-separated selector string.
pub open spec fn spec_selector_flags(s: Seq<char>) -> Seq<KeyUsageFlag> {
    spec_tokens_flags(spec_split_commas(s))
}

/// The views of a list of character vectors.
pub open spec fn views_of(ts: Seq<Vec<char>>) -> Seq<Seq<char>> {
    ts.map_values(|t: Vec<char>| t@)
}

/// Splitting yields at least one piece.
proof fn lemma_split_nonempty(s: Seq<char>)
    ensures
        spec_split_commas(s).len() >= 1,
    decreases s.len(),
{
    if s.len() > 0 && s.first() != ',' {
        lemma_split_nonempty(s.drop_first());
    }
}

/// Whether a character has the Unicode `White_Space` property.
fn is_space_char(c: char) -> (r: bool)
    ensures
        r == spec_is_space(c),
{
    let u = c as u32;
    (9 <= u && u <= 13) || u == 0x20 || u == 0x85 || u == 0xA0 || u == 0x1680 || (0x2000 <= u && u
        <= 0x200A) || u == 0x2028 || u == 0x2029 || u == 0x202F || u == 0x205F || u == 0x3000
}

/// The characters of a string, in order.
fn chars_of(s: &str) -> (r: Vec<char>)
    ensures
        r@ == s@,
{
    let n = s.unicode_len();
    let mut r: Vec<char> = Vec::new();
    proof {
        assert(s@.take(0) =~= Seq::<char>::empty());
    }
    for i in 0..n
        invariant
            n == s@.len(),
            r@ == s@.take(i as int),
    {
        r.push(s.get_char(i));
        proof {
            assert(s@.take(i + 1) =~= s@.take(i as int).push(s@[i as int]));
        }
    }
    proof {
        assert(s@.take(n as int) =~= s@);
    }
    r
}

/// Leading whitespace trims down to the suffix that starts at the
/// first non-space character.
proof fn lemma_trim_start_skip(s: Seq<char>, a: int)
    requires
        0 <= a <= s.len(),
        forall|k: int| 0 <= k < a ==> spec_is_space(s[k]),
        a < s.len() ==> !spec_is_space(s[a]),
    ensures
        spec_trim_start(s) == s.skip(a),
    decreases a,
{
    if a == 0 {
        assert(s.skip(0) =~= s);
    } else {
        lemma_trim_start_skip(s.drop_first(), a - 1);
        assert(s.drop_first().skip(a - 1) =~= s.skip(a));
    }
}

/// Trailing whitespace trims down to the prefix that ends after the
/// last non-space character.
proof fn lemma_trim_end_take(s: Seq<char>, b: int)
    requires
        0 <= b <= s.len(),
        forall|k: int| b <= k < s.len() ==> spec_is_space(s[k]),
        b > 0 ==> !spec_is_space(s[b - 1]),
    ensures
        spec_trim_end(s) == s.take(b),
    decreases s.len() - b,
{
    if b == s.len() {
        assert(s.take(b) =~= s);
    } else {
        assert(spec_is_space(s.last()));
        lemma_trim_end_take(s.drop_last(), b);
        assert(s.drop_last().take(b) =~= s.take(b));
    }
}

/// The token without leading and trailing whitespace.
fn trim_chars(tok: &Vec<char>) -> (r: Vec<char>)
    ensures
        r@ == spec_trim(tok@),
{
    let n = tok.len();
    let mut a: usize = 0;
    while a < n && is_space_char(tok[a])
        invariant
            0 <= a <= n,
            n == tok@.len(),
            forall|k: int| 0 <= k < a ==> spec_is_space(tok@[k]),
        decreases n - a,
    {
        a = a + 1;
    }
    let mut b: usize = n;
    while b > a && is_space_char(tok[b - 1])
        invariant
            a <= b <= n,
            n == tok@.len(),
            forall|k: int| b <= k < n ==> spec_is_space(tok@[k]),
        decreases b,
    {
        b = b - 1;
    }
    let mut r: Vec<char> = Vec::new();
    proof {
        assert(tok@.subrange(a as int, a as int) =~= Seq::<char>::empty());
    }
    let mut i: usize = a;
    while i < b
        invariant
            a <= i <= b <= n,
            n == tok@.len(),
            r@ == tok@.subrange(a as int, i as int),
        decreases b - i,
    {
        r.push(tok[i]);
        proof {
            assert(tok@.subrange(a as int, i + 1) =~= tok@.subrange(a as int, i as int).push(
                tok@[i as int],
            ));
        }
        i = i + 1;
    }
    proof {
        lemma_trim_start_skip(tok@, a as int);
        let u = tok@.skip(a as int);
        lemma_trim_end_take(u, b - a);
        assert(u.take(b - a) =~= tok@.subrange(a as int, b as int));
    }
    r
}

/// Whether the token spells exactly the given name.
fn token_eq(tok: &Vec<char>, name: &str) -> (r: bool)
    ensures
        r == (tok@ == name@),
{
    let n = name.unicode_len();
    if tok.len() != n {
        return false;
    }
    for i in 0..n
        invariant
            n == name@.len(),
            n == tok@.len(),
            forall|k: int| 0 <= k < i ==> tok@[k] == name@[k],
    {
        if tok[i] != name.get_char(i) {
            return false;
        }
    }
    proof {
        assert(tok@ =~= name@);
    }
    true
}

/// The key-usage flag named by a trimmed token, or `None` for an
/// unrecognized token.
fn token_flag(tok: &Vec<char>) -> (r: Option<KeyUsageFlag>)
    ensures
        r == spec_token_flag(tok@),
{
    if token_eq(tok, "digital_signature") {
        Some(KeyUsageFlag::DigitalSignature)
    } else if token_eq(tok, "content_commitment") {
        Some(KeyUsageFlag::ContentCommitment)
    } else if token_eq(tok, "key_encipherment") {
        Some(KeyUsageFlag::KeyEncipherment)
    } else if token_eq(tok, "data_encipherment") {
        Some(KeyUsageFlag::DataEncipherment)
    } else if token_eq(tok, "key_agreement") {
        Some(KeyUsageFlag::KeyAgreement)
    } else if token_eq(tok, "key_cert_sign") {
        Some(KeyUsageFlag::KeyCertSign)
    } else if token_eq(tok, "crl_sign") {
        Some(KeyUsageFlag::CrlSign)
    } else if token_eq(tok, "encipher_only") {
        Some(KeyUsageFlag::EncipherOnly)
    } else if token_eq(tok, "decipher_only") {
        Some(KeyUsageFlag::DecipherOnly)
    } else {
        None
    }
}

/// The pieces of the character list between its commas, in order.
fn split_commas(v: &Vec<char>) -> (r: Vec<Vec<char>>)
    ensures
        r@.len() == spec_split_commas(v@).len(),
        forall|i: int| 0 <= i < r@.len() ==> #[trigger] r@[i]@ == spec_split_commas(v@)[i],
{
    let n = v.len();
    let mut toks: Vec<Vec<char>> = Vec::new();
    let mut cur: Vec<char> = Vec::new();
    proof {
        assert(v@.skip(0) =~= v@);
        assert(views_of(toks@) =~= Seq::<Seq<char>>::empty());
        lemma_split_nonempty(v@);
        assert(spec_split_commas(v@) =~~= views_of(toks@) + seq![
            cur@ + spec_split_commas(v@.skip(0)).first(),
        ] + spec_split_commas(v@.skip(0)).drop_first());
    }
    let mut j: usize = 0;
    while j < n
        invariant
            0 <= j <= n,
            n == v@.len(),
            spec_split_commas(v@) == views_of(toks@) + seq![
                cur@ + spec_split_commas(v@.skip(j as int)).first(),
            ] + spec_split_commas(v@.skip(j as int)).drop_first(),
        decreases n - j,
    {
        let ghost suffix = v@.skip(j as int);
        proof {
            assert(suffix.len() > 0);
            assert(suffix.first() == v@[j as int]);
            assert(suffix.drop_first() =~= v@.skip(j + 1));
            lemma_split_nonempty(v@.skip(j + 1));
        }
        let c = v[j];
        if c == ',' {
            let ghost toks_old = toks@;
            let ghost cur_old = cur@;
            let done = cur;
            cur = Vec::new();
            toks.push(done);
            proof {
                let rest = spec_split_commas(v@.skip(j + 1));
                assert(spec_split_commas(suffix) =~~= seq![Seq::<char>::empty()] + rest);
                assert(cur_old + spec_split_commas(suffix).first() =~= cur_old);
                assert(views_of(toks@) =~~= views_of(toks_old) + seq![cur_old]);
                assert(rest =~~= seq![rest.first()] + rest.drop_first());
                assert(spec_split_commas(v@) =~~= views_of(toks@) + seq![
                    cur@ + rest.first(),
                ] + rest.drop_first());
            }
        } else {
            let ghost cur_old = cur@;
            cur.push(c);
            proof {
                let rest = spec_split_commas(v@.skip(j + 1));
                assert(spec_split_commas(suffix) =~~= seq![seq![v@[j as int]] + rest.first()]
                    + rest.drop_first());
                assert(cur_old + spec_split_commas(suffix).first() =~= cur@ + rest.first());
                assert(spec_split_commas(v@) =~~= views_of(toks@) + seq![
                    cur@ + rest.first(),
                ] + rest.drop_first());
            }
        }
        j = j + 1;
    }
    proof {
        assert(v@.skip(n as int) =~= Seq::<char>::empty());
        let rest = spec_split_commas(v@.skip(n as int));
        assert(rest =~~= seq![Seq::<char>::empty()]);
        assert(cur@ + rest.first() =~= cur@);
        assert(spec_split_commas(v@) =~~= views_of(toks@) + seq![cur@]);
    }
    let ghost toks_old = toks@;
    let ghost cur_old = cur@;
    toks.push(cur);
    proof {
        assert(views_of(toks@) =~~= views_of(toks_old) + seq![cur_old]);
        assert(views_of(toks@) =~~= spec_split_commas(v@));
    }
    toks
}

/// Parses a comma-separated key-usage selector. Each token is trimmed
/// of whitespace and matched case-sensitively; recognized tokens give
/// their flag in order, unrecognized tokens are dropped silently and
/// never an error.
pub fn parse_key_usage_selector(s: &str) -> (r: Vec<KeyUsageFlag>)
    ensures
        r@ == spec_selector_flags(s@),
{
    let chars = chars_of(s);
    let tokens = split_commas(&chars);
    let ghost sp = spec_split_commas(s@);
    proof {
        assert(views_of(tokens@) =~~= sp);
    }
    let mut flags: Vec<KeyUsageFlag> = Vec::new();
    let m = tokens.len();
    proof {
        assert(sp.skip(0) =~~= sp);
    }
    for k in 0..m
        invariant
            m == tokens@.len(),
            m == sp.len(),
            forall|i: int| 0 <= i < m ==> #[trigger] tokens@[i]@ == sp[i],
            flags@ + spec_tokens_flags(sp.skip(k as int)) == spec_tokens_flags(sp),
    {
        let trimmed = trim_chars(&tokens[k]);
        let flag = token_flag(&trimmed);
        match flag {
            Some(f) => flags.push(f),
            None => (),
        }
        proof {
            let tail = sp.skip(k as int);
            assert(tail.len() > 0);
            assert(tail.first() == sp[k as int]);
            assert(tail.drop_first() =~~= sp.skip(k + 1));
            assert(trimmed@ == spec_trim(sp[k as int]));
            assert(flags@ + spec_tokens_flags(sp.skip(k + 1)) =~= spec_tokens_flags(sp));
        }
    }
    proof {
        assert(sp.skip(m as int) =~~= Seq::<Seq<char>>::empty());
        assert(flags@ =~= spec_tokens_flags(sp));
    }
    flags
}

/// Splitting distributes over a comma: the pieces of `a + "," + b` are
/// the pieces of `a` followed by the pieces of `b`.
pub proof fn lemma_split_commas_append(a: Seq<char>, b: Seq<char>)
    ensures
        spec_split_commas(a + seq![','] + b) == spec_split_commas(a) + spec_split_commas(b),
    decreases a.len(),
{
    let s = a + seq![','] + b;
    if a.len() == 0 {
        assert(s.first() == ',');
        assert(s.drop_first() =~= b);
        assert(spec_split_commas(s) =~~= spec_split_commas(a) + spec_split_commas(b));
    } else {
        assert(s.first() == a.first());
        assert(s.drop_first() =~= a.drop_first() + seq![','] + b);
        lemma_split_commas_append(a.drop_first(), b);
        lemma_split_nonempty(a.drop_first());
        let ra = spec_split_commas(a.drop_first());
        let rb = spec_split_commas(b);
        if a.first() == ',' {
            assert(spec_split_commas(s) =~~= seq![Seq::<char>::empty()] + (ra + rb));
            assert(spec_split_commas(a) =~~= seq![Seq::<char>::empty()] + ra);
            assert(spec_split_commas(s) =~~= spec_split_commas(a) + rb);
        } else {
            assert((ra + rb).first() == ra.first());
            assert((ra + rb).drop_first() =~= ra.drop_first() + rb);
            assert(spec_split_commas(s) =~~= seq![seq![a.first()] + ra.first()] + (ra.drop_first()
                + rb));
            assert(spec_split_commas(a) =~~= seq![seq![a.first()] + ra.first()] + ra.drop_first());
            assert(spec_split_commas(s) =~~= spec_split_commas(a) + rb);
        }
    }
}

/// A comma-free sequence splits into exactly itself.
pub proof fn lemma_split_comma_free(t: Seq<char>)
    requires
        forall|i: int| 0 <= i < t.len() ==> t[i] != ',',
    ensures
        spec_split_commas(t) == seq![t],
    decreases t.len(),
{
    if t.len() == 0 {
        assert(spec_split_commas(t) =~~= seq![t]);
    } else {
        assert(t.first() != ',');
        assert(forall|i: int| 0 <= i < t.drop_first().len() ==> t.drop_first()[i] != ',');
        lemma_split_comma_free(t.drop_first());
        let rest = spec_split_commas(t.drop_first());
        assert(rest.first() == t.drop_first());
        assert(rest.drop_first() =~~= Seq::<Seq<char>>::empty());
        assert(seq![t.first()] + t.drop_first() =~= t);
        assert(spec_split_commas(t) =~~= seq![t]);
    }
}

/// Token flags distribute over list concatenation.
pub proof fn lemma_tokens_flags_append(x: Seq<Seq<char>>, y: Seq<Seq<char>>)
    ensures
        spec_tokens_flags(x + y) == spec_tokens_flags(x) + spec_tokens_flags(y),
    decreases x.len(),
{
    if x.len() == 0 {
        assert(x + y =~~= y);
        assert(spec_tokens_flags(x) =~= Seq::<KeyUsageFlag>::empty());
        assert(spec_tokens_flags(x) + spec_tokens_flags(y) =~= spec_tokens_flags(y));
    } else {
        assert((x + y).first() == x.first());
        assert((x + y).drop_first() =~~= x.drop_first() + y);
        lemma_tokens_flags_append(x.drop_first(), y);
        assert(spec_tokens_flags(x + y) =~= spec_tokens_flags(x) + spec_tokens_flags(y));
    }
}

/// An unrecognized token does not affect the selected flags: appending
/// `",<token>"` with a token whose trimmed spelling names no flag
/// leaves the selection unchanged.
pub proof fn lemma_unrecognized_token_ignored(s: Seq<char>, t: Seq<char>)
    requires
        forall|i: int| 0 <= i < t.len() ==> t[i] != ',',
        spec_token_flag(spec_trim(t)) is None,
    ensures
        spec_selector_flags(s + seq![','] + t) == spec_selector_flags(s),
{
    lemma_split_commas_append(s, t);
    lemma_split_comma_free(t);
    lemma_tokens_flags_append(spec_split_commas(s), seq![t]);
    assert(seq![t].first() == t);
    assert(seq![t].drop_first() =~~= Seq::<Seq<char>>::empty());
    assert(spec_tokens_flags(Seq::<Seq<char>>::empty()) =~= Seq::<KeyUsageFlag>::empty());
    assert(spec_tokens_flags(seq![t]) =~= Seq::<KeyUsageFlag>::empty());
    assert(spec_selector_flags(s + seq![','] + t) =~= spec_selector_flags(s));
}

/// A recognized token extends the selected flags by exactly its flag:
/// appending `",<token>"` with a token whose trimmed spelling names
/// flag `f` appends exactly `f` to the selection.
pub proof fn lemma_recognized_token_appended(s: Seq<char>, t: Seq<char>, f: KeyUsageFlag)
    requires
        forall|i: int| 0 <= i < t.len() ==> t[i] != ',',
        spec_token_flag(spec_trim(t)) == Some(f),
    ensures
        spec_selector_flags(s + seq![','] + t) == spec_selector_flags(s).push(f),
{
    lemma_split_commas_append(s, t);
    lemma_split_comma_free(t);
    lemma_tokens_flags_append(spec_split_commas(s), seq![t]);
    assert(seq![t].first() == t);
    assert(seq![t].drop_first() =~~= Seq::<Seq<char>>::empty());
    assert(spec_tokens_flags(Seq::<Seq<char>>::empty()) =~= Seq::<KeyUsageFlag>::empty());
    assert(spec_tokens_flags(seq![t]) =~= seq![f]);
    assert(spec_selector_flags(s + seq![','] + t) =~= spec_selector_flags(s).push(f));
}

} // verus!
