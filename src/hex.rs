use vstd::prelude::*;

verus! {

/// Value of a lower-case hexadecimal digit, or -1 for any other character.
pub open spec fn hex_value(c: char) -> int {
    if '0' <= c && c <= '9' {
        c as int - 48
    } else if 'a' <= c && c <= 'f' {
        c as int - 87
    } else {
        -1
    }
}

/// The half-byte that character `j` of an encoding of `b` stands for.
pub open spec fn nibble(b: Seq<u8>, j: int) -> int {
    if j % 2 == 0 {
        b[j / 2] as int / 16
    } else {
        b[j / 2] as int % 16
    }
}

/// `cs` is the lower-case hexadecimal text of `b`, high half first.
pub open spec fn is_hex_of(cs: Seq<char>, b: Seq<u8>) -> bool {
    &&& cs.len() == 2 * b.len()
    &&& forall|j: int| 0 <= j < cs.len() ==> hex_value(#[trigger] cs[j]) == nibble(b, j)
}

/// A text encodes at most one byte sequence.
pub proof fn lemma_hex_injective(cs: Seq<char>, a: Seq<u8>, b: Seq<u8>)
    requires
        is_hex_of(cs, a),
        is_hex_of(cs, b),
    ensures
        a == b,
{
    assert forall|i: int| 0 <= i < a.len() implies a[i] == b[i] by {
        let j0 = 2 * i;
        let j1 = 2 * i + 1;
        assert(hex_value(cs[j0]) == nibble(a, j0));
        assert(hex_value(cs[j0]) == nibble(b, j0));
        assert(hex_value(cs[j1]) == nibble(a, j1));
        assert(hex_value(cs[j1]) == nibble(b, j1));
        let x = a[i];
        let y = b[i];
        assert(x / 16 == y / 16 && x % 16 == y % 16);
        assert(x == y) by (bit_vector)
            requires
                x / 16 == y / 16,
                x % 16 == y % 16,
        ;
    }
    assert(a =~= b);
}

fn digit_char(n: u8) -> (c: char)
    requires
        n < 16,
    ensures
        hex_value(c) == n,
{
    if n < 10 {
        (n + 48) as char
    } else {
        (n + 87) as char
    }
}

fn digit_value(c: char) -> (r: Option<u8>)
    ensures
        match r {
            Some(v) => v < 16 && hex_value(c) == v,
            None => hex_value(c) == -1,
        },
{
    if '0' <= c && c <= '9' {
        Some((c as u32 - 48) as u8)
    } else if 'a' <= c && c <= 'f' {
        Some((c as u32 - 87) as u8)
    } else {
        None
    }
}

/// Lower-case hexadecimal text of a byte sequence.
pub fn hex_encode(b: &Vec<u8>) -> (r: Vec<char>)
    requires
        b@.len() * 2 <= usize::MAX,
    ensures
        is_hex_of(r@, b@),
{
    let mut r: Vec<char> = Vec::new();
    let mut i: usize = 0;
    while i < b.len()
        invariant
            i <= b@.len(),
            b@.len() * 2 <= usize::MAX,
            r@.len() == 2 * i,
            forall|j: int| 0 <= j < r@.len() ==> hex_value(#[trigger] r@[j]) == nibble(b@, j),
        decreases b@.len() - i,
    {
        let x = b[i];
        let hi = x / 16;
        let lo = x % 16;
        r.push(digit_char(hi));
        r.push(digit_char(lo));
        proof {
            assert(nibble(b@, 2 * i as int) == x / 16);
            assert(nibble(b@, 2 * i as int + 1) == x % 16);
        }
        i = i + 1;
    }
    r
}

/// Bytes whose lower-case hexadecimal text is `cs`, if there are any.
pub fn hex_decode(cs: &Vec<char>) -> (r: Option<Vec<u8>>)
    ensures
        match r {
            Some(b) => is_hex_of(cs@, b@),
            None => forall|b: Seq<u8>| !is_hex_of(cs@, b),
        },
{
    if cs.len() % 2 != 0 {
        proof {
            assert forall|b: Seq<u8>| !is_hex_of(cs@, b) by {}
        }
        return None;
    }
    let n = cs.len() / 2;
    let mut r: Vec<u8> = Vec::new();
    let mut i: usize = 0;
    while i < n
        invariant
            n * 2 == cs@.len(),
            cs@.len() <= usize::MAX,
            i <= n,
            r@.len() == i,
            forall|j: int| 0 <= j < 2 * i ==> hex_value(#[trigger] cs@[j]) == nibble(r@, j),
        decreases n - i,
    {
        let c0 = cs[2 * i];
        let c1 = cs[2 * i + 1];
        let h0 = digit_value(c0);
        let h1 = digit_value(c1);
        match (h0, h1) {
            (Some(a), Some(b)) => {
                let v: u8 = a * 16 + b;
                assert(v / 16 == a && v % 16 == b) by (bit_vector)
                    requires
                        a < 16,
                        b < 16,
                        v == a * 16 + b,
                ;
                let ghost old_r = r@;
                r.push(v);
                proof {
                    assert forall|j: int| 0 <= j < 2 * i + 2 implies hex_value(
                        #[trigger] cs@[j],
                    ) == nibble(r@, j) by {
                        if j < 2 * i {
                            assert(nibble(r@, j) == nibble(old_r, j));
                        }
                    }
                }
                i = i + 1;
            },
            _ => {
                proof {
                    assert forall|b: Seq<u8>| !is_hex_of(cs@, b) by {
                        if is_hex_of(cs@, b) {
                            assert(hex_value(cs@[2 * i as int]) == nibble(b, 2 * i as int));
                            assert(hex_value(cs@[2 * i as int + 1]) == nibble(b, 2 * i as int + 1));
                        }
                    }
                }
                return None;
            },
        }
    }
    Some(r)
}

} // verus!
