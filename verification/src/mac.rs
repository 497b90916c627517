//! Validated hardware MAC addresses.
use vstd::prelude::*;

verus! {

use crate::text::{ascii_to_string, ascii_chars_of, all_ascii};
use vstd::string::StrSliceExecFns;

/// One of the sixteen hexadecimal digits, in either case.
pub open spec fn is_hex_digit(c: char) -> bool {
    ||| 48 <= c as u32 && c as u32 <= 57
    ||| 65 <= c as u32 && c as u32 <= 70
    ||| 97 <= c as u32 && c as u32 <= 102
}

/// A hexadecimal digit as it appears in the canonical form: `0`-`9` or `A`-`F`.
pub open spec fn is_upper_hex_digit(c: char) -> bool {
    (48 <= c as u32 && c as u32 <= 57) || (65 <= c as u32 && c as u32 <= 70)
}

/// Lowercase hexadecimal letters fold to uppercase; every other character stays.
pub open spec fn upper_hex(c: char) -> char {
    if 97 <= c as u32 && c as u32 <= 102 {
        ((c as u32 - 32) as u8) as char
    } else {
        c
    }
}

/// Canonical form: six uppercase hexadecimal octet pairs separated by colons.
pub open spec fn is_canonical_mac(s: Seq<char>) -> bool {
    &&& s.len() == 17
    &&& forall|i: int| 0 <= i < 17 && i % 3 == 2 ==> #[trigger] s[i] == ':'
    &&& forall|i: int| 0 <= i < 17 && i % 3 != 2 ==> is_upper_hex_digit(#[trigger] s[i])
}

/// Accepted input shape one: 17 characters, colons between octet pairs,
/// hexadecimal digits in either case.
pub open spec fn is_colon_form(s: Seq<char>) -> bool {
    &&& s.len() == 17
    &&& forall|i: int| 0 <= i < 17 && i % 3 == 2 ==> #[trigger] s[i] == ':'
    &&& forall|i: int| 0 <= i < 17 && i % 3 != 2 ==> is_hex_digit(#[trigger] s[i])
}

/// Accepted input shape two: 12 bare hexadecimal digits in either case.
pub open spec fn is_bare_form(s: Seq<char>) -> bool {
    s.len() == 12 && forall|i: int| 0 <= i < 12 ==> is_hex_digit(#[trigger] s[i])
}

/// An input is accepted exactly when it has one of the two shapes.
pub open spec fn accepted_mac_input(s: Seq<char>) -> bool {
    is_colon_form(s) || is_bare_form(s)
}

/// The canonical address denoted by a colon-form input: digits folded to uppercase.
pub open spec fn canonical_of_colon(s: Seq<char>) -> Seq<char> {
    Seq::new(17, |i: int| upper_hex(s[i]))
}

/// The canonical address denoted by a bare input: colons inserted after each
/// octet pair, digits folded to uppercase.
pub open spec fn canonical_of_bare(s: Seq<char>) -> Seq<char> {
    Seq::new(17, |i: int| if i % 3 == 2 { ':' } else { upper_hex(s[i - i / 3]) })
}

/// The canonical address an accepted input denotes.
pub open spec fn canonical_of(s: Seq<char>) -> Seq<char> {
    if is_colon_form(s) {
        canonical_of_colon(s)
    } else {
        canonical_of_bare(s)
    }
}

/// A validated MAC address.  Every live value holds the canonical
/// colon-separated uppercase form; `new` is the only validation gate.
#[derive(Clone, Debug, PartialEq, Eq)]
pub struct Mac(String);

impl View for Mac {
    type V = Seq<char>;

    closed spec fn view(&self) -> Seq<char> {
        self.0@
    }
}

impl Mac {
    /// Well-formedness: the held text is a canonical MAC address.
    /// Every constructor of this crate establishes it.
    pub open spec fn wf(&self) -> bool {
        is_canonical_mac(self@)
    }

    /// Validates an address given in either accepted shape and returns its
    /// canonical form; rejects every other string.
    pub fn new(mac: &str) -> (r: Option<Mac>)
        ensures
            match r {
                Some(m) => accepted_mac_input(mac@) && m@ == canonical_of(mac@) && m.wf(),
                None => !accepted_mac_input(mac@),
            },
    {
        let n = mac.unicode_len();
        if n == 17 {
            Mac::new_colon(mac)
        } else if n == 12 {
            Mac::new_bare(mac)
        } else {
            None
        }
    }

    /// The canonical text of the address.
    pub fn as_str(&self) -> (r: &str)
        ensures
            r@ == self@,
    {
        self.0.as_str()
    }

    /// The fixed placeholder address used where no hardware inventory is
    /// available; a compatibility stub, not a resolved address.
    pub fn placeholder() -> (r: Mac)
        ensures
            r@ == "A0:B1:C2:D3:E4:F5"@,
            r.wf(),
    {
        proof {
            reveal_strlit("A0:B1:C2:D3:E4:F5");
        }
        let r = Mac(String::from_str("A0:B1:C2:D3:E4:F5"));
        proof {
            assert forall|i: int| 0 <= i < 17 && i % 3 == 2 implies #[trigger] r@[i] == ':' by {
                reveal_strlit("A0:B1:C2:D3:E4:F5");
            }
            assert forall|i: int| 0 <= i < 17 && i % 3 != 2 implies is_upper_hex_digit(
                #[trigger] r@[i],
            ) by {
                reveal_strlit("A0:B1:C2:D3:E4:F5");
            }
        }
        r
    }

    fn new_colon(mac: &str) -> (r: Option<Mac>)
        requires
            mac@.len() == 17,
        ensures
            match r {
                Some(m) => is_colon_form(mac@) && m@ == canonical_of(mac@) && m.wf(),
                None => !accepted_mac_input(mac@),
            },
    {
        let mut out: Vec<u8> = Vec::new();
        let mut i: usize = 0;
        while i < 17
            invariant
                mac@.len() == 17,
                i <= 17,
                out@.len() == i,
                forall|j: int|
                    0 <= j < i && j % 3 == 2 ==> #[trigger] mac@[j] == ':',
                forall|j: int|
                    0 <= j < i && j % 3 != 2 ==> is_hex_digit(#[trigger] mac@[j]),
                forall|j: int| 0 <= j < i ==> #[trigger] out@[j] < 128,
                forall|j: int|
                    0 <= j < i ==> #[trigger] out@[j] as char == (if j % 3 == 2 {
                        ':'
                    } else {
                        upper_hex(mac@[j])
                    }),
            decreases 17 - i,
        {
            let c = mac.get_char(i);
            let v = c as u32;
            if i % 3 == 2 {
                if v != 58 {
                    proof {
                        assert(!is_colon_form(mac@));
                        assert(!is_bare_form(mac@));
                    }
                    return None;
                }
                out.push(58);
            } else {
                if (48 <= v && v <= 57) || (65 <= v && v <= 70) {
                    out.push(v as u8);
                } else if 97 <= v && v <= 102 {
                    out.push((v - 32) as u8);
                } else {
                    proof {
                        assert(!is_hex_digit(mac@[i as int]));
                        assert(!is_colon_form(mac@));
                        assert(!is_bare_form(mac@));
                    }
                    return None;
                }
            }
            i += 1;
        }
        proof {
            assert(is_colon_form(mac@));
        }
        let s = ascii_to_string(out);
        let ghost canon = canonical_of(mac@);
        proof {
            assert(canon =~= canonical_of_colon(mac@));
            assert(s@ =~= canon);
            assert(is_canonical_mac(canon)) by {
                assert forall|j: int| 0 <= j < 17 && j % 3 != 2 implies is_upper_hex_digit(
                    #[trigger] canon[j],
                ) by {
                    assert(is_hex_digit(mac@[j]));
                }
            }
        }
        Some(Mac(s))
    }

    fn new_bare(mac: &str) -> (r: Option<Mac>)
        requires
            mac@.len() == 12,
        ensures
            match r {
                Some(m) => is_bare_form(mac@) && m@ == canonical_of(mac@) && m.wf(),
                None => !accepted_mac_input(mac@),
            },
    {
        let mut i: usize = 0;
        while i < 12
            invariant
                mac@.len() == 12,
                i <= 12,
                forall|j: int| 0 <= j < i ==> is_hex_digit(#[trigger] mac@[j]),
            decreases 12 - i,
        {
            let c = mac.get_char(i);
            let v = c as u32;
            if !((48 <= v && v <= 57) || (65 <= v && v <= 70) || (97 <= v && v <= 102)) {
                proof {
                    assert(!is_hex_digit(mac@[i as int]));
                    assert(!is_bare_form(mac@));
                    assert(!is_colon_form(mac@));
                }
                return None;
            }
            i += 1;
        }
        proof {
            assert(is_bare_form(mac@));
        }
        let mut out: Vec<u8> = Vec::new();
        let mut p: usize = 0;
        while p < 17
            invariant
                mac@.len() == 12,
                is_bare_form(mac@),
                p <= 17,
                out@.len() == p,
                forall|j: int| 0 <= j < p ==> #[trigger] out@[j] < 128,
                forall|j: int|
                    0 <= j < p ==> #[trigger] out@[j] as char == (if j % 3 == 2 {
                        ':'
                    } else {
                        upper_hex(mac@[j - j / 3])
                    }),
            decreases 17 - p,
        {
            if p % 3 == 2 {
                out.push(58);
            } else {
                let idx = p - p / 3;
                proof {
                    assert(idx < 12);
                }
                let c = mac.get_char(idx);
                let v = c as u32;
                proof {
                    assert(is_hex_digit(mac@[idx as int]));
                }
                if 97 <= v && v <= 102 {
                    out.push((v - 32) as u8);
                } else {
                    out.push(v as u8);
                }
            }
            p += 1;
        }
        let s = ascii_to_string(out);
        let ghost canon = canonical_of(mac@);
        proof {
            assert(!is_colon_form(mac@));
            assert(canon =~= canonical_of_bare(mac@));
            assert(s@ =~= canon);
            assert(is_canonical_mac(canon)) by {
                assert forall|j: int| 0 <= j < 17 && j % 3 != 2 implies is_upper_hex_digit(
                    #[trigger] canon[j],
                ) by {
                    assert(is_hex_digit(mac@[j - j / 3]));
                }
            }
        }
        Some(Mac(s))
    }
}

/// A canonical address is itself an accepted input and its own canonical
/// form: validation changes nothing the second time.
pub proof fn lemma_canonical_fixed_point(s: Seq<char>)
    requires
        is_canonical_mac(s),
    ensures
        accepted_mac_input(s),
        canonical_of(s) == s,
{
    assert forall|i: int| 0 <= i < 17 && i % 3 != 2 implies is_hex_digit(#[trigger] s[i]) by {
        assert(is_upper_hex_digit(s[i]));
    }
    assert(is_colon_form(s));
    assert forall|i: int| 0 <= i < 17 implies canonical_of_colon(s)[i] == #[trigger] s[i] by {
        if i % 3 == 2 {
            assert(s[i] == ':');
        } else {
            assert(is_upper_hex_digit(s[i]));
        }
    }
    assert(canonical_of(s) =~= s);
}

/// A canonical address is ASCII text: used when it crosses the byte-level codec.
pub proof fn lemma_canonical_mac_ascii(s: Seq<char>)
    requires
        is_canonical_mac(s),
    ensures
        forall|i: int| 0 <= i < s.len() ==> (#[trigger] s[i] as u32) < 128,
{
    assert forall|i: int| 0 <= i < s.len() implies (#[trigger] s[i] as u32) < 128 by {
        if i % 3 == 2 {
            assert(s[i] == ':');
        } else {
            assert(is_upper_hex_digit(s[i]));
        }
    }
}

} // verus!
