//! The claims payload of a session token: a fixed-layout JSON object
//! `{"sub":"…","exp":…,"token_type":"…"}` written and read by this crate.
use vstd::prelude::*;
use crate::text::{decimal, digit_char, push_all, push_decimal, chars_of, string_of};

verus! {

/// What a token authorises: the protected routes, or minting a new pair.
#[derive(Clone, Copy, Debug, PartialEq, Eq, Structural)]
pub enum TokenType {
    Access,
    Refresh,
}

/// The signed payload of a token.
#[derive(Clone, Debug)]
pub struct Claims {
    /// The account's e-mail address.
    pub sub: String,
    /// Expiry, in seconds since the Unix epoch.
    pub exp: u64,
    pub token_type: TokenType,
}

pub open spec fn kind_text(k: TokenType) -> Seq<char> {
    match k {
        TokenType::Access => seq!['A', 'c', 'c', 'e', 's', 's'],
        TokenType::Refresh => seq!['R', 'e', 'f', 'r', 'e', 's', 'h'],
    }
}

/// Lower-case hexadecimal digit for `d < 16`.
pub open spec fn hex_char(d: nat) -> char {
    if d < 10 {
        digit_char(d)
    } else {
        (87 + d) as char
    }
}

/// The characters below U+0020, which JSON strings must escape.
pub open spec fn is_control(c: char) -> bool {
    0 <= (c as int) && (c as int) < 32
}

/// JSON string escape of one character: quote, backslash and control characters.
pub open spec fn escaped_char(c: char) -> Seq<char> {
    if c == '"' {
        seq!['\\', '"']
    } else if c == '\\' {
        seq!['\\', '\\']
    } else if is_control(c) {
        seq!['\\', 'u', '0', '0', hex_char((c as int / 16) as nat), hex_char((c as int % 16) as nat)]
    } else {
        seq![c]
    }
}

/// JSON string escape of a whole text (without the surrounding quotes).
pub open spec fn escaped(s: Seq<char>) -> Seq<char>
    decreases s.len(),
{
    if s.len() == 0 {
        Seq::empty()
    } else {
        escaped(s.drop_last()) + escaped_char(s.last())
    }
}

pub open spec fn sub_open() -> Seq<char> {
    seq!['{', '"', 's', 'u', 'b', '"', ':', '"']
}

pub open spec fn exp_open() -> Seq<char> {
    seq!['"', ',', '"', 'e', 'x', 'p', '"', ':']
}

pub open spec fn kind_open() -> Seq<char> {
    seq![',', '"', 't', 'o', 'k', 'e', 'n', '_', 't', 'y', 'p', 'e', '"', ':', '"']
}

pub open spec fn payload_close() -> Seq<char> {
    seq!['"', '}']
}

/// The payload text of the claims `(sub, exp, kind)`.
pub open spec fn claims_json(sub: Seq<char>, exp: nat, kind: TokenType) -> Seq<char> {
    sub_open() + escaped(sub) + exp_open() + decimal(exp) + kind_open() + kind_text(kind)
        + payload_close()
}

/// True when `p` is the payload text of some claims.
pub open spec fn is_claims_json(p: Seq<char>) -> bool {
    exists|w: (Seq<char>, u64, TokenType)| p == claims_json(w.0, w.1 as nat, w.2)
}

/// Value of a run of decimal digits.
pub open spec fn digits_value(s: Seq<char>) -> nat
    decreases s.len(),
{
    if s.len() == 0 {
        0
    } else {
        digits_value(s.drop_last()) * 10 + ((s.last() as int - 48) as nat)
    }
}

pub open spec fn is_digit(c: char) -> bool {
    '0' <= c && c <= '9'
}

pub proof fn lemma_decimal_digits(n: nat)
    ensures
        decimal(n).len() >= 1,
        forall|i: int| 0 <= i < decimal(n).len() ==> is_digit(#[trigger] decimal(n)[i]),
        digits_value(decimal(n)) == n,
    decreases n,
{
    assert(digit_char(n % 10) as int == 48 + n % 10);
    assert((n / 10) * 10 + n % 10 == n);
    assert(decimal(n).last() == digit_char(n % 10));
    if n >= 10 {
        lemma_decimal_digits(n / 10);
        assert(decimal(n).drop_last() =~= decimal(n / 10));
        assert(digits_value(decimal(n)) == digits_value(decimal(n / 10)) * 10 + n % 10);
    } else {
        assert(decimal(n).drop_last() =~= Seq::<char>::empty());
        assert(digits_value(Seq::<char>::empty()) == 0);
        assert(digits_value(decimal(n)) == digits_value(Seq::<char>::empty()) * 10 + n % 10);
    }
}

pub proof fn lemma_digits_prefix(s: Seq<char>, j: int)
    requires
        0 <= j <= s.len(),
    ensures
        digits_value(s.take(j)) <= digits_value(s),
    decreases s.len(),
{
    if j < s.len() {
        lemma_digits_prefix(s.drop_last(), j);
        assert(s.drop_last().take(j) =~= s.take(j));
    } else {
        assert(s.take(j) =~= s);
    }
}

pub proof fn lemma_escaped_append(a: Seq<char>, b: Seq<char>)
    ensures
        escaped(a + b) == escaped(a) + escaped(b),
    decreases b.len(),
{
    if b.len() == 0 {
        assert(a + b =~= a);
        assert(escaped(b) =~= Seq::<char>::empty());
        assert(escaped(a) + escaped(b) =~= escaped(a));
    } else {
        let b0 = b.drop_last();
        lemma_escaped_append(a, b0);
        assert((a + b).drop_last() =~= a + b0);
        assert((a + b).last() == b.last());
        assert(escaped(a + b) =~= escaped(a) + escaped(b));
    }
}

fn hex_of(d: u32) -> (c: char)
    requires
        d < 16,
    ensures
        c == hex_char(d as nat),
{
    if d < 10 {
        (48u8 + d as u8) as char
    } else {
        (87u8 + d as u8) as char
    }
}

fn push_escaped_char(out: &mut Vec<char>, c: char)
    ensures
        final(out)@ == old(out)@ + escaped_char(c),
{
    if c == '"' {
        out.push('\\');
        out.push('"');
    } else if c == '\\' {
        out.push('\\');
        out.push('\\');
    } else if (c as u32) < 32 {
        out.push('\\');
        out.push('u');
        out.push('0');
        out.push('0');
        out.push(hex_of(c as u32 / 16));
        out.push(hex_of(c as u32 % 16));
    } else {
        out.push(c);
    }
    assert(final(out)@ =~= old(out)@ + escaped_char(c));
}

fn push_escaped(out: &mut Vec<char>, s: &Vec<char>)
    ensures
        final(out)@ == old(out)@ + escaped(s@),
{
    let mut i: usize = 0;
    while i < s.len()
        invariant
            i <= s@.len(),
            out@ == old(out)@ + escaped(s@.take(i as int)),
        decreases s@.len() - i,
    {
        push_escaped_char(out, s[i]);
        proof {
            assert(s@.take(i + 1).drop_last() =~= s@.take(i as int));
        }
        i = i + 1;
        assert(out@ =~= old(out)@ + escaped(s@.take(i as int)));
    }
    assert(s@.take(s@.len() as int) =~= s@);
}

/// The payload text of the given claims.
pub fn render_claims(sub: &str, exp: u64, kind: TokenType) -> (r: String)
    ensures
        r@ == claims_json(sub@, exp as nat, kind),
{
    let mut out: Vec<char> = Vec::new();
    let a = ['{', '"', 's', 'u', 'b', '"', ':', '"'];
    push_all(&mut out, a.as_slice());
    push_escaped(&mut out, &chars_of(sub));
    let b = ['"', ',', '"', 'e', 'x', 'p', '"', ':'];
    push_all(&mut out, b.as_slice());
    push_decimal(&mut out, exp);
    let c = [',', '"', 't', 'o', 'k', 'e', 'n', '_', 't', 'y', 'p', 'e', '"', ':', '"'];
    push_all(&mut out, c.as_slice());
    match kind {
        TokenType::Access => {
            let k = ['A', 'c', 'c', 'e', 's', 's'];
            push_all(&mut out, k.as_slice());
        },
        TokenType::Refresh => {
            let k = ['R', 'e', 'f', 'r', 'e', 's', 'h'];
            push_all(&mut out, k.as_slice());
        },
    }
    let d = ['"', '}'];
    push_all(&mut out, d.as_slice());
    assert(out@ =~= claims_json(sub@, exp as nat, kind));
    string_of(&out)
}

fn hex_value(c: char) -> (r: Option<u32>)
    ensures
        forall|d: nat| d < 16 && c == hex_char(d) ==> r == Some(d as u32),
        r matches Some(d) ==> d < 16,
{
    if '0' <= c && c <= '9' {
        Some(c as u32 - 48)
    } else if 'a' <= c && c <= 'f' {
        Some(c as u32 - 87)
    } else {
        None
    }
}

proof fn lemma_escape_step(v: Seq<char>, start: int, want: Seq<char>, k: int)
    requires
        0 <= start,
        start + escaped(want).len() < v.len(),
        v.subrange(start, start + escaped(want).len()) == escaped(want),
        v[start + escaped(want).len()] == '"',
        0 <= k <= want.len(),
    ensures
        k < want.len() ==> escaped(want.take(k + 1)) == escaped(want.take(k)) + escaped_char(want[k]),
        k < want.len() ==> start + escaped(want.take(k + 1)).len() <= start + escaped(want).len(),
        k < want.len() ==> forall|t: int|
            0 <= t < escaped_char(want[k]).len() ==> v[start + escaped(want.take(k)).len() + t]
                == #[trigger] escaped_char(want[k])[t],
        k == want.len() ==> v[start + escaped(want.take(k)).len()] == '"',
        escaped(want.take(k)).len() <= escaped(want).len(),
{
    lemma_escaped_append(want.take(k), want.skip(k));
    assert(want.take(k) + want.skip(k) =~= want);
    if k < want.len() {
        lemma_escaped_append(seq![want[k]], want.skip(k + 1));
        assert(seq![want[k]] + want.skip(k + 1) =~= want.skip(k));
        assert(escaped(seq![want[k]]) =~= escaped_char(want[k])) by {
            assert(seq![want[k]].drop_last() =~= Seq::<char>::empty());
            assert(escaped(Seq::<char>::empty()) =~= Seq::<char>::empty());
        }
        assert(want.take(k + 1).drop_last() =~= want.take(k));
        let e = escaped(want);
        let pre = escaped(want.take(k)).len();
        let ec = escaped_char(want[k]);
        assert(e =~= escaped(want.take(k)) + ec + escaped(want.skip(k + 1)));
        assert forall|t: int| 0 <= t < ec.len() implies v[start + pre + t] == #[trigger] ec[t] by {
            assert(v.subrange(start, start + e.len())[pre + t] == e[pre + t]);
        }
    } else {
        assert(want.take(k) =~= want);
    }
}

/// Reads an escaped JSON string body starting at `start`, up to the closing quote.
/// On the escape of `want` followed by a quote it yields `want` and the quote's position.
fn read_escaped(v: &Vec<char>, start: usize, Ghost(want): Ghost<Seq<char>>) -> (r: Option<(Vec<char>, usize)>)
    requires
        start <= v@.len(),
    ensures
        r matches Some((_, end)) ==> start <= end < v@.len(),
        start + escaped(want).len() < v@.len() && v@.subrange(start as int, start + escaped(want).len()) == escaped(want)
            && v@[start + escaped(want).len()] == '"' ==> (r matches Some((out, end)) && out@ == want && end == start
            + escaped(want).len()),
{
    let ghost good = start + escaped(want).len() < v@.len() && v@.subrange(start as int, start + escaped(want).len())
        == escaped(want) && v@[start + escaped(want).len()] == '"';
    let mut out: Vec<char> = Vec::new();
    let mut i: usize = start;
    let ghost mut k: int = 0;
    loop
        invariant
            start <= i <= v@.len(),
            good == (start + escaped(want).len() < v@.len() && v@.subrange(start as int, start + escaped(want).len())
                == escaped(want) && v@[start + escaped(want).len()] == '"'),
            good ==> 0 <= k <= want.len() && out@ == want.take(k) && i == start + escaped(want.take(k)).len(),
        decreases v@.len() - i,
    {
        proof {
            if good {
                lemma_escape_step(v@, start as int, want, k);
            }
        }
        if i >= v.len() {
            return None;
        }
        let c = v[i];
        let ghost wk: char = if good && k < want.len() { want[k] } else { ' ' };
        proof {
            if good && k < want.len() {
                assert(v@[i + 0] == escaped_char(wk)[0]);
            }
        }
        if c == '"' {
            proof {
                if good {
                    assert(want.take(want.len() as int) =~= want);
                }
            }
            return Some((out, i));
        } else if c == '\\' {
            if i + 1 >= v.len() {
                return None;
            }
            let c2 = v[i + 1];
            proof {
                if good && k < want.len() {
                    assert(v@[i + 1] == escaped_char(wk)[1]);
                }
            }
            if c2 == '"' || c2 == '\\' {
                out.push(c2);
                i = i + 2;
            } else if c2 == 'u' {
                if v.len() - i <= 5 || v[i + 2] != '0' || v[i + 3] != '0' {
                    return None;
                }
                let c4 = v[i + 4];
                let c5 = v[i + 5];
                proof {
                    if good && k < want.len() {
                        assert(v@[i + 4] == escaped_char(wk)[4]);
                        assert(v@[i + 5] == escaped_char(wk)[5]);
                        assert(is_control(wk));
                        assert(hex_char(0) == '0');
                        assert(hex_char(1) == '1');
                        let w = wk as int;
                        assert(0 <= w);
                        assert(w / 16 == 0 || w / 16 == 1) by (nonlinear_arith)
                            requires
                                0 <= w < 32,
                        ;
                        assert(c4 == hex_char(((wk as int) / 16) as nat));
                        assert(c5 == hex_char(((wk as int) % 16) as nat));
                    }
                }
                let hi: u32 = if c4 == '0' {
                    0
                } else if c4 == '1' {
                    1
                } else {
                    return None;
                };
                let lo = match hex_value(c5) {
                    Some(d) => d,
                    None => {
                        return None;
                    },
                };
                let code: u32 = hi * 16 + lo;
                let ch = (code as u8) as char;
                proof {
                    if good && k < want.len() {
                        assert(hi == (wk as int) / 16);
                        assert(lo == (wk as int) % 16);
                        assert(code == wk as int);
                        assert(ch as int == code);
                        assert(ch == wk);
                    }
                }
                out.push(ch);
                i = i + 6;
            } else {
                return None;
            }
        } else {
            out.push(c);
            i = i + 1;
        }
        proof {
            if good {
                k = k + 1;
                assert(out@ =~= want.take(k));
            }
        }
    }
}

/// Reads a run of decimal digits starting at `start`.
/// On the decimal text of `want` followed by a non-digit it yields `want` and the end of the run.
fn read_decimal(v: &Vec<char>, start: usize, Ghost(want): Ghost<nat>) -> (r: Option<(u64, usize)>)
    requires
        start <= v@.len(),
    ensures
        r matches Some((_, end)) ==> start <= end <= v@.len(),
        want <= u64::MAX && start + decimal(want).len() < v@.len() && v@.subrange(
            start as int,
            start + decimal(want).len(),
        ) == decimal(want) && !is_digit(v@[start + decimal(want).len()]) ==> (r matches Some((n, end)) && n
            == want && end == start + decimal(want).len()),
{
    let ghost d = decimal(want);
    let ghost good = want <= u64::MAX && start + d.len() < v@.len() && v@.subrange(start as int, start + d.len()) == d
        && !is_digit(v@[start + d.len()]);
    proof {
        lemma_decimal_digits(want);
    }
    let mut acc: u64 = 0;
    let mut i: usize = start;
    while i < v.len() && '0' <= v[i] && v[i] <= '9'
        invariant
            start <= i <= v@.len(),
            d == decimal(want),
            good == (want <= u64::MAX && start + d.len() < v@.len() && v@.subrange(start as int, start + d.len()) == d
                && !is_digit(v@[start + d.len()])),
            d.len() >= 1,
            forall|t: int| 0 <= t < d.len() ==> is_digit(#[trigger] d[t]),
            digits_value(d) == want,
            good ==> i <= start + d.len() && acc == digits_value(d.take(i - start)),
        decreases v@.len() - i,
    {
        proof {
            if good {
                if i == start + d.len() {
                    assert(false);
                }
                assert(v@[i as int] == v@.subrange(start as int, start + d.len())[i - start]);
                assert(d.take(i - start + 1).drop_last() =~= d.take(i - start));
                lemma_digits_prefix(d, i - start + 1);
            }
        }
        let digit = (v[i] as u32 - 48) as u64;
        proof {
            if good {
                let k = i - start;
                assert(d.take(k + 1).last() == d[k]);
                assert(digit == d[k] as int - 48);
                assert(digits_value(d.take(k + 1)) == acc * 10 + digit);
                assert(acc * 10 + digit <= want);
            }
        }
        let next = match acc.checked_mul(10) {
            Some(m) => m.checked_add(digit),
            None => None,
        };
        match next {
            Some(n) => {
                acc = n;
            },
            None => {
                return None;
            },
        }
        i = i + 1;
    }
    proof {
        if good {
            if i < start + d.len() {
                assert(v@[i as int] == v@.subrange(start as int, start + d.len())[i - start]);
            }
            assert(d.take(d.len() as int) =~= d);
        }
    }
    if i == start {
        return None;
    }
    Some((acc, i))
}

proof fn lemma_hex_char_injective(a: nat, b: nat)
    requires
        a < 16,
        b < 16,
        hex_char(a) == hex_char(b),
    ensures
        a == b,
{
    assert(hex_char(a) as int == if a < 10 { 48 + a } else { 87 + a });
    assert(hex_char(b) as int == if b < 10 { 48 + b } else { 87 + b });
}

proof fn lemma_escaped_char_prefix_free(a: char, b: char, x: Seq<char>, y: Seq<char>)
    requires
        escaped_char(a) + x == escaped_char(b) + y,
    ensures
        a == b,
        x == y,
{
    let ea = escaped_char(a);
    let eb = escaped_char(b);
    let l = ea + x;
    let r = eb + y;
    assert(l[0] == ea[0] && r[0] == eb[0]);
    if ea[0] == '\\' {
        assert(l[1] == ea[1] && r[1] == eb[1]);
        if ea[1] == 'u' {
            assert(l[4] == ea[4] && r[4] == eb[4]);
            assert(l[5] == ea[5] && r[5] == eb[5]);
            let ia = a as int;
            let ib = b as int;
            assert(0 <= ia / 16 < 16 && 0 <= ib / 16 < 16) by (nonlinear_arith)
                requires
                    0 <= ia < 32,
                    0 <= ib < 32,
            ;
            lemma_hex_char_injective((ia / 16) as nat, (ib / 16) as nat);
            lemma_hex_char_injective((ia % 16) as nat, (ib % 16) as nat);
            assert(ia == ib);
        }
    }
    assert(a == b);
    assert(x =~= l.skip(ea.len() as int));
    assert(y =~= r.skip(eb.len() as int));
}

proof fn lemma_escaped_front(s: Seq<char>)
    requires
        s.len() > 0,
    ensures
        escaped(s) == escaped_char(s[0]) + escaped(s.skip(1)),
{
    lemma_escaped_append(seq![s[0]], s.skip(1));
    assert(seq![s[0]] + s.skip(1) =~= s);
    assert(seq![s[0]].drop_last() =~= Seq::<char>::empty());
    assert(escaped(Seq::<char>::empty()) =~= Seq::<char>::empty());
    assert(escaped(seq![s[0]]) =~= escaped_char(s[0]));
}

/// An escaped text ends at its first unescaped quote, so the text is recovered.
proof fn lemma_escaped_unique(s1: Seq<char>, s2: Seq<char>, x: Seq<char>, y: Seq<char>)
    requires
        escaped(s1) + seq!['"'] + x == escaped(s2) + seq!['"'] + y,
    ensures
        s1 == s2,
        x == y,
    decreases s1.len(),
{
    if s1.len() == 0 {
        assert(escaped(s1) =~= Seq::<char>::empty());
        if s2.len() > 0 {
            lemma_escaped_front(s2);
            let e = escaped_char(s2[0]);
            assert((escaped(s2) + seq!['"'] + y)[0] == e[0]);
            assert(false);
        }
        assert(escaped(s2) =~= Seq::<char>::empty());
        assert(x =~= (escaped(s1) + seq!['"'] + x).skip(1));
        assert(y =~= (escaped(s2) + seq!['"'] + y).skip(1));
    } else if s2.len() == 0 {
        lemma_escaped_front(s1);
        let e = escaped_char(s1[0]);
        assert(escaped(s2) =~= Seq::<char>::empty());
        assert((escaped(s1) + seq!['"'] + x)[0] == e[0]);
        assert(false);
    } else {
        lemma_escaped_front(s1);
        lemma_escaped_front(s2);
        let t1 = escaped(s1.skip(1)) + seq!['"'] + x;
        let t2 = escaped(s2.skip(1)) + seq!['"'] + y;
        assert(escaped(s1) + seq!['"'] + x =~= escaped_char(s1[0]) + t1);
        assert(escaped(s2) + seq!['"'] + y =~= escaped_char(s2[0]) + t2);
        lemma_escaped_char_prefix_free(s1[0], s2[0], t1, t2);
        lemma_escaped_unique(s1.skip(1), s2.skip(1), x, y);
        assert(s1 =~= seq![s1[0]] + s1.skip(1));
        assert(s2 =~= seq![s2[0]] + s2.skip(1));
    }
}

proof fn lemma_decimal_unique(e1: nat, e2: nat, x: Seq<char>, y: Seq<char>)
    requires
        decimal(e1) + seq![','] + x == decimal(e2) + seq![','] + y,
    ensures
        e1 == e2,
        x == y,
{
    lemma_decimal_digits(e1);
    lemma_decimal_digits(e2);
    let r1 = decimal(e1) + seq![','] + x;
    let r2 = decimal(e2) + seq![','] + y;
    let d1 = decimal(e1).len();
    let d2 = decimal(e2).len();
    if d1 < d2 {
        assert(r1[d1 as int] == ',');
        assert(r2[d1 as int] == decimal(e2)[d1 as int]);
        assert(false);
    }
    if d2 < d1 {
        assert(r2[d2 as int] == ',');
        assert(r1[d2 as int] == decimal(e1)[d2 as int]);
        assert(false);
    }
    assert(decimal(e1) =~= r1.take(d1 as int));
    assert(decimal(e2) =~= r2.take(d2 as int));
    assert(x =~= r1.skip(d1 + 1int));
    assert(y =~= r2.skip(d2 + 1int));
}

spec fn kind_tail(k: TokenType) -> Seq<char> {
    kind_open().drop_first() + kind_text(k) + payload_close()
}

spec fn exp_tail(e: nat, k: TokenType) -> Seq<char> {
    exp_open().drop_first() + (decimal(e) + seq![','] + kind_tail(k))
}

proof fn lemma_claims_shape(s: Seq<char>, e: nat, k: TokenType)
    ensures
        claims_json(s, e, k) == sub_open() + (escaped(s) + seq!['"'] + exp_tail(e, k)),
{
    assert(claims_json(s, e, k) =~= sub_open() + (escaped(s) + seq!['"'] + exp_tail(e, k)));
}

proof fn lemma_skip_concat(a: Seq<char>, b: Seq<char>)
    ensures
        (a + b).skip(a.len() as int) == b,
{
    assert((a + b).skip(a.len() as int) =~= b);
}

/// Distinct claims have distinct payload texts.
pub proof fn lemma_claims_json_injective(s1: Seq<char>, e1: nat, k1: TokenType, s2: Seq<char>, e2: nat, k2: TokenType)
    requires
        claims_json(s1, e1, k1) == claims_json(s2, e2, k2),
    ensures
        s1 == s2,
        e1 == e2,
        k1 == k2,
{
    lemma_claims_shape(s1, e1, k1);
    lemma_claims_shape(s2, e2, k2);
    lemma_skip_concat(sub_open(), escaped(s1) + seq!['"'] + exp_tail(e1, k1));
    lemma_skip_concat(sub_open(), escaped(s2) + seq!['"'] + exp_tail(e2, k2));
    lemma_escaped_unique(s1, s2, exp_tail(e1, k1), exp_tail(e2, k2));
    let o = exp_open().drop_first();
    lemma_skip_concat(o, decimal(e1) + seq![','] + kind_tail(k1));
    lemma_skip_concat(o, decimal(e2) + seq![','] + kind_tail(k2));
    lemma_decimal_unique(e1, e2, kind_tail(k1), kind_tail(k2));
    assert(kind_tail(k1)[14] == kind_text(k1)[0]);
    assert(kind_tail(k2)[14] == kind_text(k2)[0]);
}

/// The claims that a payload text holds, if it is one.
pub open spec fn claims_of(p: Seq<char>) -> Option<(Seq<char>, u64, TokenType)> {
    if is_claims_json(p) {
        Some(choose|w: (Seq<char>, u64, TokenType)| p == claims_json(w.0, w.1 as nat, w.2))
    } else {
        None
    }
}

/// Reading the payload text of claims gives those claims back.
pub proof fn lemma_claims_of_json(sub: Seq<char>, exp: u64, kind: TokenType)
    ensures
        claims_of(claims_json(sub, exp as nat, kind)) == Some((sub, exp, kind)),
{
    let p = claims_json(sub, exp as nat, kind);
    assert(p == claims_json((sub, exp, kind).0, (sub, exp, kind).1 as nat, (sub, exp, kind).2));
    assert(is_claims_json(p));
    let w = choose|w: (Seq<char>, u64, TokenType)| p == claims_json(w.0, w.1 as nat, w.2);
    lemma_claims_json_injective(w.0, w.1 as nat, w.2, sub, exp as nat, kind);
}

proof fn lemma_claims_layout(sub: Seq<char>, exp: nat, kind: TokenType)
    ensures
        ({
            let q = claims_json(sub, exp, kind);
            let e = escaped(sub).len() as int;
            let d = decimal(exp).len() as int;
            &&& q.subrange(0, 8) == sub_open()
            &&& q.subrange(8, 8 + e) == escaped(sub)
            &&& q[8 + e] == '"'
            &&& q.subrange(8 + e, 16 + e) == exp_open()
            &&& q.subrange(16 + e, 16 + e + d) == decimal(exp)
            &&& q[16 + e + d] == ','
            &&& 16 + e + d + 15 < q.len()
            &&& q[16 + e + d + 15] == kind_text(kind)[0]
        }),
{
    let q = claims_json(sub, exp, kind);
    let e = escaped(sub).len() as int;
    let d = decimal(exp).len() as int;
    assert(q.subrange(0, 8) =~= sub_open());
    assert(q.subrange(8, 8 + e) =~= escaped(sub));
    assert(q.subrange(8 + e, 16 + e) =~= exp_open());
    assert(q.subrange(16 + e, 16 + e + d) =~= decimal(exp));
}

fn starts_at(v: &Vec<char>, pos: usize, pat: &[char]) -> (r: bool)
    ensures
        r == (pos + pat@.len() <= v@.len() && v@.subrange(pos as int, pos + pat@.len()) == pat@),
{
    if pos > v.len() || v.len() - pos < pat.len() {
        return false;
    }
    let mut j: usize = 0;
    while j < pat.len()
        invariant
            pos + pat@.len() <= v@.len() <= usize::MAX,
            j <= pat@.len(),
            forall|t: int| 0 <= t < j ==> v@[pos + t] == pat@[t],
        decreases pat@.len() - j,
    {
        assert(pos + j < v@.len());
        if v[pos + j] != pat[j] {
            assert(v@.subrange(pos as int, pos + pat@.len())[j as int] != pat@[j as int]);
            return false;
        }
        j = j + 1;
    }
    assert(v@.subrange(pos as int, pos + pat@.len()) =~= pat@);
    true
}

/// Reads the fields of a claims text loosely; on the claims text of `w` it yields `w`.
#[verifier::rlimit(40)]
fn read_fields(v: &Vec<char>, Ghost(w): Ghost<(Seq<char>, u64, TokenType)>) -> (r: Option<(Vec<char>, u64, TokenType)>)
    ensures
        v@ == claims_json(w.0, w.1 as nat, w.2) ==> (r matches Some((s, e, k)) && s@ == w.0 && e == w.1 && k == w.2),
{
    let ghost canon = v@ == claims_json(w.0, w.1 as nat, w.2);
    let ghost e_len: int = escaped(w.0).len() as int;
    let ghost d_len: int = decimal(w.1 as nat).len() as int;
    proof {
        if canon {
            lemma_claims_layout(w.0, w.1 as nat, w.2);
        }
    }
    let a = ['{', '"', 's', 'u', 'b', '"', ':', '"'];
    assert(a@ =~= sub_open());
    if !starts_at(v, 0, a.as_slice()) {
        return None;
    }
    let (sub_chars, j) = match read_escaped(v, 8, Ghost(w.0)) {
        Some(x) => x,
        None => {
            return None;
        },
    };
    let b = ['"', ',', '"', 'e', 'x', 'p', '"', ':'];
    assert(b@ =~= exp_open());
    proof {
        if canon {
            assert(j == 8 + e_len);
        }
    }
    if !starts_at(v, j, b.as_slice()) {
        return None;
    }
    let n = v.len();
    assert(j + 8 <= n);
    let (exp, m) = match read_decimal(v, j + 8, Ghost(w.1 as nat)) {
        Some(x) => x,
        None => {
            return None;
        },
    };
    let kind = if v.len() - m > 15 && v[m + 15] == 'A' {
        TokenType::Access
    } else {
        TokenType::Refresh
    };
    proof {
        if canon {
            assert(m == 16 + e_len + d_len);
            assert(kind == w.2);
        }
    }
    Some((sub_chars, exp, kind))
}

/// Reads claims back from their payload text; any other text is refused.
pub fn parse_claims(p: &str) -> (r: Option<Claims>)
    ensures
        match r {
            Some(c) => claims_of(p@) == Some((c.sub@, c.exp, c.token_type)),
            None => claims_of(p@) is None,
        },
{
    let ghost w: (Seq<char>, u64, TokenType) = choose|w: (Seq<char>, u64, TokenType)|
        p@ == claims_json(w.0, w.1 as nat, w.2);
    let v = chars_of(p);
    let (sub_chars, exp, kind) = match read_fields(&v, Ghost(w)) {
        Some(x) => x,
        None => {
            return None;
        },
    };
    let sub = string_of(&sub_chars);
    let rendered = render_claims(sub.as_str(), exp, kind);
    let given = p.to_owned();
    if rendered == given {
        proof {
            lemma_claims_of_json(sub@, exp, kind);
        }
        Some(Claims { sub, exp, token_type: kind })
    } else {
        None
    }
}

} // verus!
