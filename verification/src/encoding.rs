//! Pure textual encodings used by wallet records: lowercase hexadecimal,
//! decimal rendering of indices, and the BIP-44 derivation path string.
use vstd::prelude::*;

verus! {

/// The character for a single decimal digit value.
pub open spec fn dec_char(d: nat) -> char {
    if d == 0 {
        '0'
    } else if d == 1 {
        '1'
    } else if d == 2 {
        '2'
    } else if d == 3 {
        '3'
    } else if d == 4 {
        '4'
    } else if d == 5 {
        '5'
    } else if d == 6 {
        '6'
    } else if d == 7 {
        '7'
    } else if d == 8 {
        '8'
    } else {
        '9'
    }
}

/// The character for a single lowercase hexadecimal digit value.
pub open spec fn hex_char(d: nat) -> char {
    if d < 10 {
        dec_char(d)
    } else if d == 10 {
        'a'
    } else if d == 11 {
        'b'
    } else if d == 12 {
        'c'
    } else if d == 13 {
        'd'
    } else if d == 14 {
        'e'
    } else {
        'f'
    }
}

/// The numeric value of a lowercase hexadecimal digit character, if it is one.
pub open spec fn hex_val(c: char) -> Option<nat> {
    if c == '0' {
        Some(0nat)
    } else if c == '1' {
        Some(1nat)
    } else if c == '2' {
        Some(2nat)
    } else if c == '3' {
        Some(3nat)
    } else if c == '4' {
        Some(4nat)
    } else if c == '5' {
        Some(5nat)
    } else if c == '6' {
        Some(6nat)
    } else if c == '7' {
        Some(7nat)
    } else if c == '8' {
        Some(8nat)
    } else if c == '9' {
        Some(9nat)
    } else if c == 'a' {
        Some(10nat)
    } else if c == 'b' {
        Some(11nat)
    } else if c == 'c' {
        Some(12nat)
    } else if c == 'd' {
        Some(13nat)
    } else if c == 'e' {
        Some(14nat)
    } else if c == 'f' {
        Some(15nat)
    } else {
        None
    }
}

/// Decimal rendering of a natural number, most significant digit first,
/// with no leading zeros except for the number zero itself.
pub open spec fn dec_digits(n: nat) -> Seq<char>
    decreases n,
{
    if n < 10 {
        seq![dec_char(n)]
    } else {
        dec_digits(n / 10).push(dec_char(n % 10))
    }
}

/// Lowercase hexadecimal rendering of a byte sequence: two digits per byte.
pub open spec fn hex_of(b: Seq<u8>) -> Seq<char>
    decreases b.len(),
{
    if b.len() == 0 {
        Seq::empty()
    } else {
        hex_of(b.drop_last()) + seq![
            hex_char(b.last() as nat / 16),
            hex_char(b.last() as nat % 16),
        ]
    }
}

/// The inverse of `hex_of`: the byte sequence a lowercase hex string denotes,
/// if every pair of characters is a valid pair of hex digits.
pub open spec fn unhex(s: Seq<char>) -> Option<Seq<u8>>
    decreases s.len(),
{
    if s.len() == 0 {
        Some(Seq::empty())
    } else if s.len() == 1 {
        None
    } else {
        match (unhex(s.drop_last().drop_last()), hex_val(s[s.len() - 2]), hex_val(s.last())) {
            (Some(rest), Some(hi), Some(lo)) => Some(rest.push((hi * 16 + lo) as u8)),
            _ => None,
        }
    }
}

/// Hex encoding loses nothing: decoding the rendering of any byte sequence
/// gives back exactly that sequence.
pub proof fn lemma_unhex_of_hex(b: Seq<u8>)
    ensures
        unhex(hex_of(b)) == Some(b),
    decreases b.len(),
{
    if b.len() == 0 {
        assert(hex_of(b).len() == 0);
        assert(unhex(hex_of(b)) == Some(Seq::<u8>::empty()));
        assert(b =~= Seq::<u8>::empty());
    } else {
        lemma_unhex_of_hex(b.drop_last());
        let s = hex_of(b);
        let hi = b.last() as nat / 16;
        let lo = b.last() as nat % 16;
        assert(s.len() == hex_of(b.drop_last()).len() + 2);
        assert(s.drop_last().drop_last() =~= hex_of(b.drop_last()));
        assert(s[s.len() - 2] == hex_char(hi));
        assert(s.last() == hex_char(lo));
        assert(hex_val(hex_char(hi)) == Some(hi));
        assert(hex_val(hex_char(lo)) == Some(lo));
        assert((hi * 16 + lo) as u8 == b.last());
        assert(unhex(s).unwrap() =~= b);
    }
}

/// The number of characters `hex_of` produces: two per byte.
pub proof fn lemma_hex_len(b: Seq<u8>)
    ensures
        hex_of(b).len() == 2 * b.len(),
    decreases b.len(),
{
    if b.len() > 0 {
        lemma_hex_len(b.drop_last());
    }
}

/// The derivation path template: hardened purpose 44, hardened coin 118,
/// hardened account 0, external chain 0, then the wallet index.
pub open spec fn path_prefix() -> Seq<char> {
    "m/44'/118'/0'/0/"@
}

/// The full derivation path string for one wallet index.
pub open spec fn path_of(index: nat) -> Seq<char> {
    path_prefix() + dec_digits(index)
}

/// Appends the single decimal digit `d` to `s`.
fn append_dec_digit(s: &mut String, d: u8)
    requires
        d < 10,
    ensures
        final(s)@ == old(s)@ + seq![dec_char(d as nat)],
{
    match d {
        0 => {
            proof {
                reveal_strlit("0");
            }
            s.append("0");
        },
        1 => {
            proof {
                reveal_strlit("1");
            }
            s.append("1");
        },
        2 => {
            proof {
                reveal_strlit("2");
            }
            s.append("2");
        },
        3 => {
            proof {
                reveal_strlit("3");
            }
            s.append("3");
        },
        4 => {
            proof {
                reveal_strlit("4");
            }
            s.append("4");
        },
        5 => {
            proof {
                reveal_strlit("5");
            }
            s.append("5");
        },
        6 => {
            proof {
                reveal_strlit("6");
            }
            s.append("6");
        },
        7 => {
            proof {
                reveal_strlit("7");
            }
            s.append("7");
        },
        8 => {
            proof {
                reveal_strlit("8");
            }
            s.append("8");
        },
        _ => {
            proof {
                reveal_strlit("9");
            }
            s.append("9");
        },
    }
}

/// Appends the single lowercase hexadecimal digit `d` to `s`.
fn append_hex_digit(s: &mut String, d: u8)
    requires
        d < 16,
    ensures
        final(s)@ == old(s)@ + seq![hex_char(d as nat)],
{
    if d < 10 {
        append_dec_digit(s, d);
    } else {
        match d {
            10 => {
                proof {
                    reveal_strlit("a");
                }
                s.append("a");
            },
            11 => {
                proof {
                    reveal_strlit("b");
                }
                s.append("b");
            },
            12 => {
                proof {
                    reveal_strlit("c");
                }
                s.append("c");
            },
            13 => {
                proof {
                    reveal_strlit("d");
                }
                s.append("d");
            },
            14 => {
                proof {
                    reveal_strlit("e");
                }
                s.append("e");
            },
            _ => {
                proof {
                    reveal_strlit("f");
                }
                s.append("f");
            },
        }
    }
}

/// Appends the decimal rendering of `n` to `s`.
fn append_decimal(s: &mut String, n: usize)
    ensures
        final(s)@ == old(s)@ + dec_digits(n as nat),
    decreases n,
{
    if n >= 10 {
        append_decimal(s, n / 10);
    }
    append_dec_digit(s, (n % 10) as u8);
    proof {
        if n >= 10 {
            assert(dec_digits(n as nat) == dec_digits(n as nat / 10).push(dec_char(n as nat % 10)));
            assert(s@ =~= old(s)@ + dec_digits(n as nat));
        } else {
            assert(dec_digits(n as nat) =~= seq![dec_char(n as nat)]);
            assert(s@ =~= old(s)@ + dec_digits(n as nat));
        }
    }
}

/// Renders a byte slice as lowercase hexadecimal, two digits per byte.
pub fn hex_encode(data: &[u8]) -> (s: String)
    ensures
        s@ == hex_of(data@),
        s@.len() == 2 * data@.len(),
{
    let mut s = String::new();
    let mut i: usize = 0;
    while i < data.len()
        invariant
            i <= data@.len(),
            s@ == hex_of(data@.take(i as int)),
        decreases data@.len() - i,
    {
        let b = data[i];
        append_hex_digit(&mut s, b / 16);
        append_hex_digit(&mut s, b % 16);
        proof {
            let t = data@.take(i + 1);
            assert(t.drop_last() =~= data@.take(i as int));
            assert(t.last() == data@[i as int]);
            assert(s@ =~= hex_of(t));
        }
        i += 1;
    }
    proof {
        assert(data@.take(data@.len() as int) =~= data@);
        lemma_hex_len(data@);
    }
    s
}

/// Renders the derivation path string `m/44'/118'/0'/0/{index}`.
pub fn derivation_path_string(index: usize) -> (s: String)
    ensures
        s@ == path_of(index as nat),
{
    let mut s = String::from_str("m/44'/118'/0'/0/");
    append_decimal(&mut s, index);
    s
}

} // verus!
