use vstd::prelude::*;

verus! {

pub open spec fn is_digit(c: char) -> bool {
    '0' <= c && c <= '9'
}

pub open spec fn all_digits(s: Seq<char>) -> bool {
    forall|i: int| 0 <= i < s.len() ==> is_digit(#[trigger] s[i])
}

/// The value of a string of decimal digits.
pub open spec fn digits_value(s: Seq<char>) -> nat
    decreases s.len(),
{
    if s.len() == 0 {
        0
    } else {
        digits_value(s.drop_last()) * 10 + ((s.last() as int) - ('0' as int)) as nat
    }
}

pub open spec fn pow10(k: nat) -> nat
    decreases k,
{
    if k == 0 {
        1
    } else {
        10 * pow10((k - 1) as nat)
    }
}

/// `s` is digits, a point at `p`, and digits.
pub open spec fn point_split(s: Seq<char>, p: int) -> bool {
    &&& 0 <= p < s.len()
    &&& s[p] == '.'
    &&& all_digits(s.take(p))
    &&& all_digits(s.skip(p + 1))
}

proof fn lemma_pow10_monotone(a: nat, b: nat)
    requires
        a <= b,
    ensures
        1 <= pow10(a) <= pow10(b),
    decreases b,
{
    if b > 0 {
        if a < b {
            lemma_pow10_monotone(a, (b - 1) as nat);
        } else {
            lemma_pow10_monotone((a - 1) as nat, (b - 1) as nat);
        }
    }
}

proof fn lemma_point_unique(s: Seq<char>, p: int, q: int)
    requires
        point_split(s, p),
        0 <= q < s.len(),
        s[q] == '.',
    ensures
        p == q,
{
    if q < p {
        assert(s.take(p)[q] == s[q]);
    } else if q > p {
        assert(s.skip(p + 1)[q - p - 1] == s[q]);
    }
}

/// The value of an integer text: an optional `+` (or `-`, when `signed`)
/// followed by at least one ASCII digit.
pub open spec fn integer_text(s: Seq<char>, signed: bool) -> Option<int> {
    let k: int = if s.len() > 0 && (s[0] == '+' || (signed && s[0] == '-')) {
        1
    } else {
        0
    };
    let d = s.skip(k);
    if d.len() > 0 && all_digits(d) {
        if k == 1 && s[0] == '-' {
            Some(-(digits_value(d) as int))
        } else {
            Some(digits_value(d) as int)
        }
    } else {
        None
    }
}

/// An integer text whose value fits in `i64`.
pub open spec fn i64_text(s: Seq<char>) -> Option<i64> {
    match integer_text(s, true) {
        Some(v) => if i64::MIN <= v <= i64::MAX {
            Some(v as i64)
        } else {
            None
        },
        None => None,
    }
}

/// An unsigned integer text whose value fits in `u64`.
pub open spec fn u64_text(s: Seq<char>) -> Option<u64> {
    match integer_text(s, false) {
        Some(v) => if 0 <= v <= u64::MAX {
            Some(v as u64)
        } else {
            None
        },
        None => None,
    }
}

/// An unsigned integer text whose value fits in `usize`.
pub open spec fn usize_text(s: Seq<char>) -> Option<usize> {
    match integer_text(s, false) {
        Some(v) => if 0 <= v <= usize::MAX {
            Some(v as usize)
        } else {
            None
        },
        None => None,
    }
}

pub open spec fn digit_of(c: char) -> nat {
    ((c as int) - ('0' as int)) as nat
}

/// `scale` times `d * 10^e`, rounded down.
pub open spec fn units_of(d: nat, e: int, scale: nat) -> nat {
    if e >= 0 {
        d * pow10(e as nat) * scale
    } else {
        d * scale / pow10((-e) as nat)
    }
}

/// Whether `scale` times `d * 10^e` is a whole number.
pub open spec fn exact_at(d: nat, e: int, scale: nat) -> bool {
    e >= 0 || (d * scale) % pow10((-e) as nat) == 0
}

proof fn lemma_digits_concat(a: Seq<char>, b: Seq<char>)
    ensures
        digits_value(a + b) == digits_value(a) * pow10(b.len()) + digits_value(b),
    decreases b.len(),
{
    if b.len() == 0 {
        assert(a + b =~= a);
        assert(pow10(0) == 1);
        assert(digits_value(b) == 0);
    } else {
        lemma_digits_concat(a, b.drop_last());
        assert((a + b).drop_last() =~= a + b.drop_last());
        assert((a + b).last() == b.last());
        let x = digits_value(a);
        let y = digits_value(b.drop_last());
        let p = pow10((b.len() - 1) as nat);
        assert((x * p + y) * 10 + digit_of(b.last()) == x * (10 * p) + (y * 10 + digit_of(
            b.last(),
        ))) by (nonlinear_arith);
        assert(pow10(b.len()) == 10 * p);
        assert(digits_value(a + b) == digits_value(a + b.drop_last()) * 10 + digit_of(b.last()));
        assert(digits_value(b) == y * 10 + digit_of(b.last()));
        assert(digits_value(a + b.drop_last()) == x * p + y);
        assert(digits_value(a + b) == (x * p + y) * 10 + digit_of(b.last()));
    }
}

proof fn lemma_prefix_at_most(g: Seq<char>, i: int)
    requires
        0 <= i <= g.len(),
    ensures
        digits_value(g.take(i)) <= digits_value(g),
{
    lemma_digits_concat(g.take(i), g.skip(i));
    assert(g.take(i) + g.skip(i) =~= g);
    lemma_pow10_monotone(0, (g.len() - i) as nat);
    let x = digits_value(g.take(i));
    let p = pow10((g.len() - i) as nat);
    assert(x <= x * p) by (nonlinear_arith)
        requires
            p >= 1,
    ;
}

proof fn lemma_digits_bound(g: Seq<char>)
    requires
        all_digits(g),
    ensures
        digits_value(g) < pow10(g.len()),
    decreases g.len(),
{
    if g.len() > 0 {
        assert(all_digits(g.drop_last())) by {
            assert forall|i: int| 0 <= i < g.drop_last().len() implies is_digit(
                #[trigger] g.drop_last()[i],
            ) by {
                assert(g.drop_last()[i] == g[i]);
            }
        }
        lemma_digits_bound(g.drop_last());
        assert(is_digit(g[g.len() - 1]));
    }
}

/// One step of flooring `scale * v / 10^j` from the right: a digit `d`
/// placed in front of `v` at weight `10^j`.
proof fn lemma_floor_step(l: nat, scale: nat, j: nat, a: nat, exact: bool, d: nat)
    requires
        d < 10,
        a == l * scale / pow10(j),
        exact == (l * scale % pow10(j) == 0),
    ensures
        (d * pow10(j) + l) * scale / pow10(j + 1) == (scale * d + a) / 10,
        ((d * pow10(j) + l) * scale % pow10(j + 1) == 0) == (exact && (scale * d + a) % 10 == 0),
{
    let p = pow10(j);
    lemma_pow10_monotone(0, j);
    assert(pow10(j + 1) == 10 * p);
    let r = l * scale % p;
    vstd::arithmetic::div_mod::lemma_fundamental_div_mod((l * scale) as int, p as int);
    assert(l * scale == a * p + r);
    let q = (scale * d + a) / 10;
    let t = (scale * d + a) % 10;
    vstd::arithmetic::div_mod::lemma_fundamental_div_mod((scale * d + a) as int, 10);
    assert((d * p + l) * scale == q * (10 * p) + (t * p + r)) by (nonlinear_arith)
        requires
            l * scale == a * p + r,
            scale * d + a == 10 * q + t,
    ;
    assert(t * p + r < 10 * p) by (nonlinear_arith)
        requires
            t < 10,
            r < p,
    ;
    vstd::arithmetic::div_mod::lemma_fundamental_div_mod_converse(
        ((d * p + l) * scale) as int,
        (10 * p) as int,
        q as int,
        (t * p + r) as int,
    );
    assert((t * p + r == 0) == (t == 0 && r == 0)) by (nonlinear_arith)
        requires
            p >= 1,
    ;
}

/// Splitting off whole multiples of `10^m`.
proof fn lemma_floor_split(h: nat, l: nat, scale: nat, m: nat)
    ensures
        (h * pow10(m) + l) * scale / pow10(m) == h * scale + l * scale / pow10(m),
        (h * pow10(m) + l) * scale % pow10(m) == l * scale % pow10(m),
{
    let p = pow10(m);
    lemma_pow10_monotone(0, m);
    vstd::arithmetic::div_mod::lemma_fundamental_div_mod((l * scale) as int, p as int);
    let q = l * scale / p;
    let r = l * scale % p;
    assert((h * p + l) * scale == (h * scale + q) * p + r) by (nonlinear_arith)
        requires
            l * scale == q * p + r,
    ;
    vstd::arithmetic::div_mod::lemma_fundamental_div_mod_converse(
        ((h * p + l) * scale) as int,
        p as int,
        (h * scale + q) as int,
        r as int,
    );
}

/// Once the floor reaches zero it stays zero, and the remainder stays what
/// it was.
proof fn lemma_floor_settled(l: nat, scale: nat, j: nat, m: nat)
    requires
        j <= m,
        l * scale / pow10(j) == 0,
    ensures
        l * scale / pow10(m) == 0,
        (l * scale % pow10(m) == 0) == (l * scale % pow10(j) == 0),
{
    lemma_pow10_monotone(0, j);
    lemma_pow10_monotone(j, m);
    vstd::arithmetic::div_mod::lemma_fundamental_div_mod((l * scale) as int, pow10(j) as int);
    assert(l * scale < pow10(j));
    vstd::arithmetic::div_mod::lemma_fundamental_div_mod_converse(
        (l * scale) as int,
        pow10(m) as int,
        0,
        (l * scale) as int,
    );
    vstd::arithmetic::div_mod::lemma_fundamental_div_mod_converse(
        (l * scale) as int,
        pow10(j) as int,
        0,
        (l * scale) as int,
    );
}

fn digit_at(g: &Vec<char>, i: usize) -> (d: u128)
    requires
        all_digits(g@),
        i < g@.len(),
    ensures
        d == digit_of(g@[i as int]),
        d < 10,
{
    assert(is_digit(g@[i as int]));
    (g[i] as u32 - '0' as u32) as u128
}

/// Largest cap that `scaled_units` accepts.
pub const MAX_CAP: u128 = 1_000_000_000_000_000_000_000_000_000;

/// `scale` times `digits_value(g) * 10^e`, rounded down, when it is at most
/// `cap` (`None` when it is larger); and whether that product is whole.
fn scaled_units(g: &Vec<char>, e: i128, scale: u64, cap: u128) -> (r: (Option<u128>, bool))
    requires
        all_digits(g@),
        1 <= scale <= 1_000_000_000,
        cap <= MAX_CAP,
        e > i128::MIN,
    ensures
        r.1 == exact_at(digits_value(g@), e as int, scale as nat),
        r.0 matches Some(u) ==> u as nat == units_of(digits_value(g@), e as int, scale as nat) && u
            <= cap,
        r.0 is None ==> units_of(digits_value(g@), e as int, scale as nat) > cap,
{
    let n = g.len();
    let ghost dv = digits_value(g@);
    let sc: u128 = scale as u128;
    if e >= 0 {
        let mut acc: u128 = 0;
        let mut i: usize = 0;
        while i < n
            invariant
                n == g@.len(),
                i <= n,
                all_digits(g@),
                acc as nat == digits_value(g@.take(i as int)),
                acc <= cap,
                cap <= MAX_CAP,
                e >= 0,
                1 <= scale <= 1_000_000_000,
                dv == digits_value(g@),
            decreases n - i,
        {
            let d = digit_at(g, i);
            assert(g@.take(i + 1).drop_last() =~= g@.take(i as int));
            acc = acc * 10 + d;
            i = i + 1;
            if acc > cap {
                proof {
                    lemma_prefix_at_most(g@, i as int);
                    lemma_pow10_monotone(0, e as nat);
                    let p = pow10(e as nat);
                    assert(dv * p * scale >= dv) by (nonlinear_arith)
                        requires
                            p >= 1,
                            scale >= 1,
                    ;
                }
                return (None, true);
            }
        }
        assert(g@.take(n as int) =~= g@);
        assert(acc == dv);
        assert(pow10(0) == 1);
        assert(acc as nat == dv * pow10(0 as nat));
        let mut t: i128 = 0;
        while t < e && acc != 0
            invariant
                0 <= t <= e,
                acc as nat == dv * pow10(t as nat),
                acc <= cap,
                cap <= MAX_CAP,
                1 <= scale <= 1_000_000_000,
                dv == digits_value(g@),
            decreases e - t,
        {
            acc = acc * 10;
            t = t + 1;
            assert(pow10(t as nat) == 10 * pow10((t - 1) as nat));
            assert(acc == dv * pow10(t as nat)) by (nonlinear_arith)
                requires
                    acc == 10 * (dv * pow10((t - 1) as nat)),
                    pow10(t as nat) == 10 * pow10((t - 1) as nat),
            ;
            if acc > cap {
                proof {
                    lemma_pow10_monotone(t as nat, e as nat);
                    let pt = pow10(t as nat);
                    let pe = pow10(e as nat);
                    assert(dv * pe * scale >= dv * pt) by (nonlinear_arith)
                        requires
                            pe >= pt,
                            scale >= 1,
                    ;
                }
                return (None, true);
            }
        }
        proof {
            lemma_pow10_monotone(0, t as nat);
            if acc == 0 {
                assert(dv == 0) by (nonlinear_arith)
                    requires
                        dv * pow10(t as nat) == 0,
                        pow10(t as nat) >= 1,
                ;
            }
        }
        assert(acc * sc <= MAX_CAP * 1_000_000_000) by (nonlinear_arith)
            requires
                acc <= MAX_CAP,
                sc <= 1_000_000_000,
        ;
        let u = acc * sc;
        proof {
            if acc == 0 {
                assert(units_of(dv, e as int, scale as nat) == 0);
            }
        }
        if u > cap {
            (None, true)
        } else {
            (Some(u), true)
        }
    } else {
        let m: u128 = (-e) as u128;
        let ghost mn = m as nat;
        let mut a: u128 = 0;
        let mut exact = true;
        let mut j: usize = 0;
        proof {
            assert(g@.subrange(n as int, n as int) =~= Seq::<char>::empty());
            assert(digits_value(Seq::<char>::empty()) == 0);
            assert(pow10(0) == 1);
            assert(0 * (scale as nat) == 0);
            assert(0nat / 1 == 0 && 0nat % 1 == 0);
        }
        while j < n && (j as u128) < m
            invariant
                n == g@.len(),
                j <= n,
                j as u128 <= m,
                all_digits(g@),
                1 <= sc <= 1_000_000_000,
                sc == scale,
                a as nat == digits_value(g@.subrange(n - j, n as int)) * (scale as nat) / pow10(
                    j as nat,
                ),
                exact == (digits_value(g@.subrange(n - j, n as int)) * (scale as nat) % pow10(
                    j as nat,
                ) == 0),
                a < sc,
            decreases n - j,
        {
            let d = digit_at(g, n - 1 - j);
            let ghost c = g@[n - 1 - j];
            let ghost rest = g@.subrange(n - j, n as int);
            proof {
                assert(g@.subrange(n - j - 1, n as int) =~= seq![c] + rest);
                lemma_digits_concat(seq![c], rest);
                assert(seq![c].drop_last() =~= Seq::<char>::empty());
                assert(seq![c].last() == c);
                assert(digits_value(Seq::<char>::empty()) == 0);
                assert(digits_value(seq![c]) == digits_value(seq![c].drop_last()) * 10 + digit_of(c));
                assert(digits_value(seq![c]) == digit_of(c));
                lemma_floor_step(digits_value(rest), scale as nat, j as nat, a as nat, exact, d as nat);
            }
            assert(sc * d <= 9_000_000_000) by (nonlinear_arith)
                requires
                    sc <= 1_000_000_000,
                    d < 10,
            ;
            let v = sc * d + a;
            assert(v < 10 * sc) by (nonlinear_arith)
                requires
                    d < 10,
                    a < sc,
                    v == sc * d + a,
            ;
            exact = exact && v % 10 == 0;
            a = v / 10;
            j = j + 1;
        }
        let c = j;
        let ghost low = digits_value(g@.subrange(n - c, n as int));
        let mut k: u128 = c as u128;
        while k < m && a > 0
            invariant
                c as u128 <= k <= m,
                a as nat == low * (scale as nat) / pow10(k as nat),
                exact == (low * (scale as nat) % pow10(k as nat) == 0),
                a < sc,
                1 <= scale <= 1_000_000_000,
            decreases m - k,
        {
            proof {
                lemma_floor_step(low, scale as nat, k as nat, a as nat, exact, 0);
                assert(0 * pow10(k as nat) + low == low);
            }
            exact = exact && a % 10 == 0;
            a = a / 10;
            k = k + 1;
        }
        proof {
            if k < m {
                lemma_floor_settled(low, scale as nat, k as nat, mn);
            }
        }
        let hi_len = n - c;
        let ghost high = digits_value(g@.take(hi_len as int));
        proof {
            lemma_digits_concat(g@.take(hi_len as int), g@.subrange(hi_len as int, n as int));
            assert(g@.take(hi_len as int) + g@.subrange(hi_len as int, n as int) =~= g@);
            if hi_len > 0 {
                assert(c as u128 == m);
                lemma_floor_split(high, low, scale as nat, mn);
            } else {
                assert(g@.take(0) =~= Seq::<char>::empty());
                assert(dv == low);
            }
            assert(mn == (-e) as nat);
            assert(a as nat == low * (scale as nat) / pow10(mn));
            assert(exact == (low * (scale as nat) % pow10(mn) == 0));
            if hi_len > 0 {
                assert(c as nat == mn);
                assert(dv == high * pow10(mn) + low);
            }
            assert(exact == exact_at(dv, e as int, scale as nat));
            assert(units_of(dv, e as int, scale as nat) == high * (scale as nat) + a);
        }
        let mut h: u128 = 0;
        let mut i: usize = 0;
        while i < hi_len
            invariant
                hi_len <= n == g@.len(),
                i <= hi_len,
                all_digits(g@),
                h as nat == digits_value(g@.take(i as int)),
                h <= cap,
                cap <= MAX_CAP,
                1 <= scale <= 1_000_000_000,
                sc == scale,
                high == digits_value(g@.take(hi_len as int)),
                dv == digits_value(g@),
                exact == exact_at(dv, e as int, scale as nat),
                units_of(dv, e as int, scale as nat) == high * (scale as nat) + a,
            decreases hi_len - i,
        {
            let d = digit_at(g, i);
            assert(g@.take(i + 1).drop_last() =~= g@.take(i as int));
            h = h * 10 + d;
            i = i + 1;
            if h > cap {
                proof {
                    lemma_prefix_at_most(g@.take(hi_len as int), i as int);
                    assert(g@.take(hi_len as int).take(i as int) =~= g@.take(i as int));
                    let sn = scale as nat;
                    assert(high * sn + a >= high) by (nonlinear_arith)
                        requires
                            sn >= 1,
                    ;
                }
                return (None, exact);
            }
        }
        assert(g@.take(hi_len as int).take(i as int) =~= g@.take(i as int));
        assert(g@.take(i as int) =~= g@.take(hi_len as int));
        assert(h * sc <= MAX_CAP * 1_000_000_000) by (nonlinear_arith)
            requires
                h <= MAX_CAP,
                sc <= 1_000_000_000,
        ;
        let u = h * sc + a;
        if u > cap {
            (None, exact)
        } else {
            (Some(u), exact)
        }
    }
}

pub open spec fn is_exp_mark(c: char) -> bool {
    c == 'e' || c == 'E'
}

pub open spec fn is_sign(c: char) -> bool {
    c == '+' || c == '-'
}

/// Length of a leading sign: one or zero.
pub open spec fn sign_len(s: Seq<char>) -> int {
    if s.len() > 0 && is_sign(s[0]) {
        1
    } else {
        0
    }
}

/// `i` is the first exponent mark of `s`, or its length when it has none.
pub open spec fn first_mark(s: Seq<char>, i: int) -> bool {
    &&& 0 <= i <= s.len()
    &&& (i == s.len() || is_exp_mark(s[i]))
    &&& forall|j: int| 0 <= j < i ==> !is_exp_mark(#[trigger] s[j])
}

pub open spec fn mark_index(s: Seq<char>) -> int {
    choose|i: int| first_mark(s, i)
}

/// Digits with at most one point, holding at least one digit.
pub open spec fn mantissa_ok(m: Seq<char>) -> bool {
    &&& m.len() > 0
    &&& m != seq!['.']
    &&& (all_digits(m) || exists|p: int| point_split(m, p))
}

pub open spec fn point_of(m: Seq<char>) -> int {
    choose|p: int| point_split(m, p)
}

/// The digits of a mantissa, point left out.
pub open spec fn mantissa_digits(m: Seq<char>) -> Seq<char> {
    if all_digits(m) {
        m
    } else {
        m.take(point_of(m)) + m.skip(point_of(m) + 1)
    }
}

/// Number of digits after the point.
pub open spec fn fraction_len(m: Seq<char>) -> int {
    if all_digits(m) {
        0
    } else {
        m.len() - point_of(m) - 1
    }
}

/// The value of an exponent: an optional sign and at least one digit.
pub open spec fn exponent_of(x: Seq<char>) -> Option<int> {
    let d = x.skip(sign_len(x));
    if d.len() > 0 && all_digits(d) {
        if sign_len(x) == 1 && x[0] == '-' {
            Some(-(digits_value(d) as int))
        } else {
            Some(digits_value(d) as int)
        }
    } else {
        None
    }
}

/// A decimal number written as an optional sign, a mantissa (digits with at
/// most one point, at least one digit) and an optional exponent (`e` or `E`,
/// an optional sign, digits), read as (negative, `d`, `e`) for the value
/// `d * 10^e` with its sign.
pub open spec fn decimal_reading(s: Seq<char>) -> Option<(bool, nat, int)> {
    let k = sign_len(s);
    let i = mark_index(s);
    let m = s.subrange(k, i);
    let ex = if i < s.len() {
        exponent_of(s.skip(i + 1))
    } else {
        Some(0int)
    };
    if k <= i && mantissa_ok(m) && ex is Some {
        Some((k == 1 && s[0] == '-', digits_value(mantissa_digits(m)), ex->0 - fraction_len(m)))
    } else {
        None
    }
}

proof fn lemma_mark_from(s: Seq<char>, i: int)
    requires
        0 <= i <= s.len(),
        forall|j: int| 0 <= j < i ==> !is_exp_mark(#[trigger] s[j]),
    ensures
        first_mark(s, mark_index(s)),
    decreases s.len() - i,
{
    if i == s.len() || is_exp_mark(s[i]) {
        assert(first_mark(s, i));
    } else {
        lemma_mark_from(s, i + 1);
    }
}

proof fn lemma_mark_unique(s: Seq<char>, i: int)
    requires
        first_mark(s, i),
    ensures
        mark_index(s) == i,
{
    let q = mark_index(s);
    assert(first_mark(s, q));
    if q < i {
        assert(!is_exp_mark(s[q]));
    } else if i < q {
        assert(!is_exp_mark(s[i]));
    }
}

proof fn lemma_pow10_add(a: nat, b: nat)
    ensures
        pow10(a + b) == pow10(a) * pow10(b),
    decreases b,
{
    if b > 0 {
        lemma_pow10_add(a, (b - 1) as nat);
        assert(pow10(a + b) == 10 * pow10((a + b - 1) as nat));
        assert(pow10(b) == 10 * pow10((b - 1) as nat));
        let x = pow10(a);
        let y = pow10((b - 1) as nat);
        assert((a + (b - 1) as nat) as nat == (a + b - 1) as nat);
        assert(10 * (x * y) == x * (10 * y)) by (nonlinear_arith);
    } else {
        assert(pow10(0) == 1);
        assert(a + b == a);
    }
}

/// What a decimal reads as, scaled.
pub struct DecimalRead {
    /// Written with a minus sign.
    pub negative: bool,
    /// Its digits are not all zero.
    pub nonzero: bool,
    /// The magnitude times the scale, rounded down, when at most the cap.
    pub units: Option<u128>,
    /// The magnitude times the scale is a whole number.
    pub exact: bool,
}

/// `r` reports what the reading `(neg, d, e)` gives at `scale` under `cap`.
pub open spec fn reports(r: DecimalRead, neg: bool, d: nat, e: int, scale: nat, cap: nat) -> bool {
    &&& r.negative == neg
    &&& r.nonzero == (d > 0)
    &&& r.exact == exact_at(d, e, scale)
    &&& (r.units matches Some(u) ==> u as nat == units_of(d, e, scale) && u <= cap)
    &&& (r.units is None ==> units_of(d, e, scale) > cap)
}

/// `d * 10^e` is at most one.
pub open spec fn at_most_one(d: nat, e: int) -> bool {
    if e >= 0 {
        d * pow10(e as nat) <= 1
    } else {
        d <= pow10((-e) as nat)
    }
}

/// A value is at most one exactly when, scaled, its floor is below the scale,
/// or equal to it with nothing left over.
pub proof fn lemma_at_most_one_scaled(d: nat, e: int, scale: nat)
    requires
        scale >= 1,
    ensures
        at_most_one(d, e) == (units_of(d, e, scale) < scale || (units_of(d, e, scale) == scale
            && exact_at(d, e, scale))),
{
    if e >= 0 {
        let x = d * pow10(e as nat);
        assert(d * pow10(e as nat) * scale == x * scale);
        assert((x <= 1) == (x * scale <= scale)) by (nonlinear_arith)
            requires
                scale >= 1,
        ;
    } else {
        let p = pow10((-e) as nat);
        lemma_pow10_monotone(0, (-e) as nat);
        vstd::arithmetic::div_mod::lemma_fundamental_div_mod((d * scale) as int, p as int);
        let q = d * scale / p;
        let r = d * scale % p;
        assert((d <= p) == (q < scale || (q == scale && r == 0))) by (nonlinear_arith)
            requires
                d * scale == q * p + r,
                r < p,
                p >= 1,
                scale >= 1,
        ;
    }
}

fn chars_of(s: &str) -> (r: Vec<char>)
    ensures
        r@ == s@,
{
    let n = s.unicode_len();
    let mut v: Vec<char> = Vec::new();
    let mut i: usize = 0;
    while i < n
        invariant
            n == s@.len(),
            i <= n,
            v@ == s@.take(i as int),
        decreases n - i,
    {
        v.push(s.get_char(i));
        assert(s@.take(i + 1) =~= s@.take(i as int).push(s@[i as int]));
        i = i + 1;
    }
    assert(s@.take(n as int) =~= s@);
    v
}

/// Exponents at least this large in size are not computed with.
pub const EXP_LIMIT: u128 = 1_000_000_000_000_000_000_000_000_000_000;

/// Reads the exponent written from `from` on: (negative, value, too large).
/// A value of `EXP_LIMIT` or more is reported as too large.
fn read_exponent(cs: &Vec<char>, from: usize) -> (r: Option<(bool, u128, bool)>)
    requires
        from <= cs@.len(),
    ensures
        r is None <==> exponent_of(cs@.skip(from as int)) is None,
        r matches Some((neg, v, big)) ==> {
            let x = cs@.skip(from as int);
            let dv = digits_value(x.skip(sign_len(x)));
            &&& neg == (sign_len(x) == 1 && x[0] == '-')
            &&& !big ==> v as nat == dv && v < EXP_LIMIT
            &&& big ==> dv >= EXP_LIMIT
        },
{
    let ghost x = cs@.skip(from as int);
    let n = cs.len();
    let mut i = from;
    let mut neg = false;
    if i < n && (cs[i] == '+' || cs[i] == '-') {
        neg = cs[i] == '-';
        i = i + 1;
    }
    let start = i;
    let ghost d = x.skip(sign_len(x));
    assert(d =~= cs@.skip(start as int));
    if start == n {
        return None;
    }
    let mut v: u128 = 0;
    let mut big = false;
    while i < n
        invariant
            start <= i <= n,
            n == cs@.len(),
            d =~= cs@.skip(start as int),
            x == cs@.skip(from as int),
            d == x.skip(sign_len(x)),
            all_digits(d.take(i - start)),
            !big ==> v as nat == digits_value(d.take(i - start)) && v < EXP_LIMIT,
            big ==> digits_value(d.take(i - start)) >= EXP_LIMIT,
        decreases n - i,
    {
        let c = cs[i];
        if !('0' <= c && c <= '9') {
            assert(d[i - start] == c);
            assert(!all_digits(d));
            return None;
        }
        let ghost t = d.take(i - start);
        assert(d.take(i - start + 1).drop_last() =~= t);
        assert(d.take(i - start + 1).last() == c);
        assert(all_digits(d.take(i - start + 1))) by {
            assert forall|j: int| 0 <= j < i - start + 1 implies is_digit(
                #[trigger] d.take(i - start + 1)[j],
            ) by {
                if j < i - start {
                    assert(d.take(i - start + 1)[j] == t[j]);
                }
            }
        }
        let dig = (c as u32 - '0' as u32) as u128;
        if !big {
            if v >= EXP_LIMIT / 10 {
                big = true;
            } else {
                v = v * 10 + dig;
                if v >= EXP_LIMIT {
                    big = true;
                }
            }
        }
        i = i + 1;
    }
    assert(d.take(i - start) =~= d);
    Some((neg, v, big))
}

/// Scans the mantissa that starts at `k`, after the sign: its digits, the
/// number of them after the point, and where it ends (the first exponent mark
/// or the end).
fn scan_mantissa(cs: &Vec<char>, k: usize) -> (r: Option<(Vec<char>, usize, usize)>)
    requires
        k == sign_len(cs@),
    ensures
        r is None ==> decimal_reading(cs@) is None,
        r matches Some((g, flen, i)) ==> {
            let m = cs@.subrange(k as int, i as int);
            &&& k <= i <= cs@.len()
            &&& first_mark(cs@, i as int)
            &&& mantissa_ok(m)
            &&& mantissa_digits(m) == g@
            &&& fraction_len(m) == flen
            &&& flen <= i
            &&& all_digits(g@)
        },
{
    let n = cs.len();
    let ghost s = cs@;
    let mut g: Vec<char> = Vec::new();
    let mut seen = false;
    let mut point: usize = 0;
    let mut i: usize = k;
    assert(s.subrange(k as int, k as int) =~= Seq::<char>::empty());
    while i < n && cs[i] != 'e' && cs[i] != 'E'
        invariant
            k <= i <= n,
            n == cs.len(),
            s == cs@,
            k == sign_len(s),
            forall|j: int| 0 <= j < i ==> !is_exp_mark(#[trigger] s[j]),
            !seen ==> all_digits(s.subrange(k as int, i as int)) && g@ == s.subrange(
                k as int,
                i as int,
            ),
            seen ==> {
                &&& k <= point < i
                &&& s[point as int] == '.'
                &&& all_digits(s.subrange(k as int, point as int))
                &&& all_digits(s.subrange(point + 1, i as int))
                &&& g@ == s.subrange(k as int, point as int) + s.subrange(point + 1, i as int)
            },
        decreases n - i,
    {
        let c = cs[i];
        if '0' <= c && c <= '9' {
            let ghost before = g@;
            g.push(c);
            proof {
                if !seen {
                    assert(s.subrange(k as int, i + 1) =~= s.subrange(k as int, i as int).push(c));
                } else {
                    assert(s.subrange(point + 1, i + 1) =~= s.subrange(point + 1, i as int).push(c));
                    assert(g@ =~= s.subrange(k as int, point as int) + s.subrange(point + 1, i + 1));
                }
            }
        } else if c == '.' && !seen {
            seen = true;
            point = i;
            assert(s.subrange(point + 1, i + 1) =~= Seq::<char>::empty());
            assert(g@ =~= s.subrange(k as int, point as int) + s.subrange(point + 1, i + 1));
        } else {
            proof {
                lemma_mark_from(s, i + 1);
                let q = mark_index(s);
                assert(q > i) by {
                    if q <= i {
                        assert(q == s.len() || is_exp_mark(s[q]));
                    }
                }
                let m = s.subrange(k as int, q);
                let o = i - k;
                assert(m[o] == c);
                assert(!all_digits(m));
                assert forall|p: int| !point_split(m, p) by {
                    if point_split(m, p) {
                        if o < p {
                            assert(m.take(p)[o] == m[o]);
                        } else if o > p {
                            assert(m.skip(p + 1)[o - p - 1] == m[o]);
                        } else {
                            assert(seen);
                            let o2 = point - k;
                            assert(m[o2] == '.');
                            assert(m.take(p)[o2] == m[o2]);
                        }
                    }
                }
            }
            return None;
        }
        i = i + 1;
    }
    proof {
        assert(first_mark(s, i as int));
        lemma_mark_unique(s, i as int);
    }
    let ghost m = s.subrange(k as int, i as int);
    if i == k {
        return None;
    }
    if seen && i - k == 1 {
        assert(m =~= seq!['.']);
        return None;
    }
    let flen: usize = if seen {
        i - point - 1
    } else {
        0
    };
    proof {
        if seen {
            let p = point - k;
            assert(m.take(p) =~= s.subrange(k as int, point as int));
            assert(m.skip(p + 1) =~= s.subrange(point + 1, i as int));
            assert(point_split(m, p));
            assert(!all_digits(m)) by {
                assert(m[p] == '.');
            }
            lemma_point_unique(m, point_of(m), p);
        }
        if !seen {
            assert(m[0] != '.') by {
                assert(is_digit(m[0]));
            }
        } else {
            assert(m.len() >= 2);
        }
        assert(m != seq!['.']);
        assert(mantissa_ok(m));
        assert(mantissa_digits(m) == g@);
        assert(fraction_len(m) == flen);
    }
    assert(all_digits(g@)) by {
        if !seen {
        } else {
            assert forall|j: int| 0 <= j < g@.len() implies is_digit(#[trigger] g@[j]) by {
                let a = s.subrange(k as int, point as int);
                if j < a.len() {
                    assert(g@[j] == a[j]);
                } else {
                    assert(g@[j] == s.subrange(point + 1, i as int)[j - a.len()]);
                }
            }
        }
    }
    Some((g, flen, i))
}

/// Reads a decimal number (see `decimal_reading`) and scales its magnitude by
/// `scale`, reporting the floor when it is at most `cap`.
pub fn read_decimal(s: &str, scale: u64, cap: u128) -> (r: Option<DecimalRead>)
    requires
        1 <= scale <= 1_000_000_000,
        cap <= MAX_CAP,
    ensures
        r is None <==> decimal_reading(s@) is None,
        r matches Some(d) ==> {
            let (neg, dv, e) = decimal_reading(s@)->0;
            reports(d, neg, dv, e, scale as nat, cap as nat)
        },
{
    let cs = chars_of(s);
    let n = cs.len();
    let k: usize = if n > 0 && (cs[0] == '+' || cs[0] == '-') {
        1
    } else {
        0
    };
    let negative = k == 1 && cs[0] == '-';
    let (g, flen, i) = match scan_mantissa(&cs, k) {
        Some(x) => x,
        None => {
            return None;
        },
    };
    proof {
        lemma_mark_unique(s@, i as int);
    }
    let (eneg, ev, big) = if i < n {
        match read_exponent(&cs, i + 1) {
            Some(x) => x,
            None => {
                return None;
            },
        }
    } else {
        (false, 0, false)
    };
    let ghost reading = decimal_reading(s@);
    let ghost ex: int = if i < n {
        exponent_of(s@.skip(i + 1))->0
    } else {
        0
    };
    let ghost dv = digits_value(g@);
    let ghost e = ex - flen;
    assert(reading == Some((negative, dv, e)));
    Some(scale_reading(&g, flen, eneg, ev, big, Ghost(ex), negative, scale, cap))
}

/// Scales `digits_value(g) * 10^(ex - flen)` (see `scaled_units`), with the
/// exponent `ex` given as sign and value, or as too large.
fn scale_reading(
    g: &Vec<char>,
    flen: usize,
    eneg: bool,
    ev: u128,
    big: bool,
    Ghost(ex): Ghost<int>,
    negative: bool,
    scale: u64,
    cap: u128,
) -> (r: DecimalRead)
    requires
        all_digits(g@),
        1 <= scale <= 1_000_000_000,
        cap <= MAX_CAP,
        !big ==> ev < EXP_LIMIT && ex == (if eneg {
            -(ev as int)
        } else {
            ev as int
        }),
        big && eneg ==> ex <= -(EXP_LIMIT as int),
        big && !eneg ==> ex >= EXP_LIMIT,
        g@.len() <= usize::MAX,
    ensures
        reports(r, negative, digits_value(g@), ex - flen, scale as nat, cap as nat),
{
    let ghost dv = digits_value(g@);
    let ghost e = ex - flen;
    let (z, _) = scaled_units(&g, 0, 1, 0);
    assert(pow10(0) == 1);
    assert(units_of(dv, 0, 1) == dv);
    let nonzero = z.is_none();
    proof {
        lemma_pow10_monotone(0, (-e) as nat);
    }
    if !nonzero {
        assert(dv == 0);
        assert(units_of(dv, e, scale as nat) == 0);
        assert(exact_at(dv, e, scale as nat));
        return DecimalRead { negative, nonzero: false, units: Some(0), exact: true };
    }
    if big && !eneg {
        proof {
            reveal_with_fuel(pow10, 29);
            assert(e >= 28);
            lemma_pow10_monotone(28, e as nat);
            let p = pow10(e as nat);
            let sn = scale as nat;
            assert(dv * p * sn >= p) by (nonlinear_arith)
                requires
                    dv >= 1,
                    sn >= 1,
                    p >= 0,
            ;
        }
        return DecimalRead { negative, nonzero: true, units: None, exact: true };
    }
    if big && eneg {
        proof {
            let mm = (-e) as nat;
            let gl = g@.len();
            assert(mm >= gl + 9);
            lemma_digits_bound(g@);
            reveal_with_fuel(pow10, 10);
            lemma_pow10_add(gl, 9);
            lemma_pow10_monotone(gl + 9, mm);
            let sn = scale as nat;
            let pg = pow10(gl);
            assert(dv * sn < pg * pow10(9)) by (nonlinear_arith)
                requires
                    dv < pg,
                    sn <= 1_000_000_000,
                    pow10(9) == 1_000_000_000,
                    sn >= 1,
            ;
            assert(dv * sn > 0) by (nonlinear_arith)
                requires
                    dv >= 1,
                    sn >= 1,
            ;
            vstd::arithmetic::div_mod::lemma_fundamental_div_mod_converse(
                (dv * sn) as int,
                pow10(mm) as int,
                0,
                (dv * sn) as int,
            );
        }
        return DecimalRead { negative, nonzero: true, units: Some(0), exact: false };
    }
    let exp: i128 = if eneg {
        -(ev as i128)
    } else {
        ev as i128
    };
    let (units, exact) = scaled_units(&g, exp - flen as i128, scale, cap);
    DecimalRead { negative, nonzero: true, units, exact }
}


} // verus!
