use vstd::prelude::*;

verus! {

/// Number of set bits among the lowest `width` bits of `x`.
pub open spec fn ones(x: nat, width: nat) -> nat
    decreases width,
{
    if width == 0 {
        0
    } else {
        (x % 2) + ones(x / 2, (width - 1) as nat)
    }
}

/// Alive-mask of radiant towers: bits 0..10.
pub open spec fn radiant_towers_alive(s: u32) -> nat {
    (s as nat) % 2048
}

/// Alive-mask of radiant barracks: bits 11..16.
pub open spec fn radiant_barracks_alive(s: u32) -> nat {
    ((s as nat) / 2048) % 64
}

/// Alive-mask of dire towers: bits 17..27.
pub open spec fn dire_towers_alive(s: u32) -> nat {
    ((s as nat) / 131072) % 2048
}

/// Alive-mask of dire barracks: bits 28..33 (only 28..31 exist in 32 bits).
pub open spec fn dire_barracks_alive(s: u32) -> nat {
    ((s as nat) / 268435456) % 64
}

/// Destroyed buildings of each kind, in the order
/// (radiant towers, dire towers, radiant barracks, dire barracks).
pub open spec fn destroyed_counts(state: Option<i64>) -> (int, int, int, int) {
    match state {
        None => (0, 0, 0, 0),
        Some(v) => {
            let s = v as u32;
            (
                11 - ones(radiant_towers_alive(s), 11),
                11 - ones(dire_towers_alive(s), 11),
                6 - ones(radiant_barracks_alive(s), 6),
                6 - ones(dire_barracks_alive(s), 6),
            )
        },
    }
}

proof fn lemma_ones_bound(x: nat, width: nat)
    ensures
        ones(x, width) <= width,
    decreases width,
{
    if width > 0 {
        lemma_ones_bound(x / 2, (width - 1) as nat);
    }
}

/// Counts the set bits among the lowest `width` bits of `x`.
pub(crate) fn count_low_ones(x: u32, width: u32) -> (r: u32)
    requires
        width <= 32,
    ensures
        r as nat == ones(x as nat, width as nat),
        r <= width,
{
    let mut rest: u32 = x;
    let mut left: u32 = width;
    let mut count: u32 = 0;
    while left > 0
        invariant
            left <= width <= 32,
            count + left <= width,
            count + ones(rest as nat, left as nat) == ones(x as nat, width as nat),
        decreases left,
    {
        let bit = rest & 1;
        assert(rest & 1 == rest % 2) by (bit_vector);
        assert(rest >> 1u32 == rest / 2) by (bit_vector);
        proof {
            lemma_ones_bound((rest / 2) as nat, (left - 1) as nat);
        }
        count = count + bit;
        rest = rest >> 1;
        left = left - 1;
    }
    proof {
        lemma_ones_bound(x as nat, width as nat);
    }
    count
}

/// Decodes a packed building state into the numbers of destroyed buildings:
/// (radiant towers, dire towers, radiant barracks, dire barracks). The value
/// is read as an unsigned 32-bit mask in which a set bit is a building alive.
/// An absent state means nothing was destroyed.
pub fn parse_building_state(state: Option<i64>) -> (r: (i32, i32, i32, i32))
    ensures
        (r.0 as int, r.1 as int, r.2 as int, r.3 as int) == destroyed_counts(state),
        0 <= r.0 <= 11,
        0 <= r.1 <= 11,
        0 <= r.2 <= 6,
        0 <= r.3 <= 6,
{
    let s: u32 = match state {
        Some(v) => v as u32,
        None => {
            return (0, 0, 0, 0);
        },
    };
    let radiant_towers = s & 0x7FF;
    let radiant_rax = (s >> 11u32) & 0x3F;
    let dire_towers = (s >> 17u32) & 0x7FF;
    let dire_rax = (s >> 28u32) & 0x3F;
    assert(s & 0x7FF == s % 2048) by (bit_vector);
    assert((s >> 11u32) & 0x3F == (s / 2048) % 64) by (bit_vector);
    assert((s >> 17u32) & 0x7FF == (s / 131072) % 2048) by (bit_vector);
    assert((s >> 28u32) & 0x3F == (s / 268435456) % 64) by (bit_vector);
    let rt = count_low_ones(radiant_towers, 11);
    let rr = count_low_ones(radiant_rax, 6);
    let dt = count_low_ones(dire_towers, 11);
    let dr = count_low_ones(dire_rax, 6);
    (11 - rt as i32, 11 - dt as i32, 6 - rr as i32, 6 - dr as i32)
}

/// The value that holds the four alive-masks at their places in the layout.
pub open spec fn packed_building_state(r_tow: nat, r_rax: nat, d_tow: nat, d_rax: nat) -> nat {
    r_tow + r_rax * 2048 + d_tow * 131072 + d_rax * 268435456
}

proof fn lemma_field(packed: nat, low: nat, field: nat, high: nat, unit: nat, cap: nat)
    requires
        unit > 0,
        cap > 0,
        low < unit,
        field < cap,
        packed == low + field * unit + high * (unit * cap),
    ensures
        (packed / unit) % cap == field,
{
    assert(packed == (field + high * cap) * unit + low) by (nonlinear_arith)
        requires
            packed == low + field * unit + high * (unit * cap),
    ;
    vstd::arithmetic::div_mod::lemma_fundamental_div_mod_converse(
        packed as int,
        unit as int,
        (field + high * cap) as int,
        low as int,
    );
    vstd::arithmetic::div_mod::lemma_fundamental_div_mod_converse(
        (field + high * cap) as int,
        cap as int,
        high as int,
        field as int,
    );
}

/// Building-state round trip: four alive-masks (radiant towers, radiant
/// barracks, dire towers, dire barracks) packed at their places decode to
/// eleven (or six) minus the number of buildings alive of each kind. The dire
/// barracks mask is limited to the four bits that a 32-bit state holds.
pub proof fn lemma_building_state_round_trip(r_tow: nat, r_rax: nat, d_tow: nat, d_rax: nat)
    requires
        r_tow < 2048,
        r_rax < 64,
        d_tow < 2048,
        d_rax < 16,
    ensures
        destroyed_counts(Some(packed_building_state(r_tow, r_rax, d_tow, d_rax) as i64)) == (
            11 - ones(r_tow, 11),
            11 - ones(d_tow, 11),
            6 - ones(r_rax, 6),
            6 - ones(d_rax, 6),
        ),
{
    let p = packed_building_state(r_tow, r_rax, d_tow, d_rax);
    assert(p < 0x1_0000_0000);
    let s = (p as i64) as u32;
    assert(s as nat == p);
    assert(p == 0 + r_tow * 1 + (r_rax + d_tow * 64 + d_rax * 131072) * (1 * 2048))
        by (nonlinear_arith)
        requires
            p == r_tow + r_rax * 2048 + d_tow * 131072 + d_rax * 268435456,
    ;
    assert(p == r_tow + r_rax * 2048 + (d_tow + d_rax * 2048) * (2048 * 64)) by (nonlinear_arith)
        requires
            p == r_tow + r_rax * 2048 + d_tow * 131072 + d_rax * 268435456,
    ;
    lemma_field(p, 0, r_tow, r_rax + d_tow * 64 + d_rax * 131072, 1, 2048);
    lemma_field(p, r_tow, r_rax, d_tow + d_rax * 2048, 2048, 64);
    lemma_field(p, r_tow + r_rax * 2048, d_tow, d_rax, 131072, 2048);
    lemma_field(p, r_tow + r_rax * 2048 + d_tow * 131072, d_rax, 0, 268435456, 64);
}

} // verus!
