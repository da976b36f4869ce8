//! MAC addresses in canonical `aa:bb:cc:dd:ee:ff` form.

use vstd::prelude::*;
use vstd::string::StrSliceExecFns;

verus! {

/// A MAC address, stored normalized: six lower-case hexadecimal byte pairs
/// separated by colons.
#[derive(Debug, PartialEq)]
pub struct Mac(String);

#[derive(Debug, PartialEq)]
pub enum Error {
    InvalidMac,
}

/// Whether `c` is a hexadecimal digit, in either case.
pub open spec fn is_hex_char(c: char) -> bool {
    (48 <= c as u32 && c as u32 <= 57)  // '0'..='9'
     || (97 <= c as u32 && c as u32 <= 102)  // 'a'..='f'
     || (65 <= c as u32 && c as u32 <= 70)  // 'A'..='F'

}

/// `c` with an upper-case ASCII letter folded to lower case.
pub open spec fn lower_char(c: char) -> char {
    if 65 <= c as u32 && c as u32 <= 90 {
        (((c as u32) + 32) as u8) as char
    } else {
        c
    }
}

/// `s` folded to lower case character by character.
pub open spec fn lower_chars(s: Seq<char>) -> Seq<char> {
    Seq::new(s.len(), |i: int| lower_char(s[i]))
}

/// The accepted shape: 17 characters, a colon at every third position and
/// a hexadecimal digit everywhere else.
pub open spec fn mac_wf(s: Seq<char>) -> bool {
    s.len() == 17 && forall|i: int|
        0 <= i < 17 ==> (if (i + 1) % 3 == 0 {
            s[i] == ':'
        } else {
            is_hex_char(#[trigger] s[i])
        })
}

impl View for Mac {
    type V = Seq<char>;

    closed spec fn view(&self) -> Seq<char> {
        self.0@
    }
}

impl Clone for Mac {
    fn clone(&self) -> (res: Self)
        ensures
            res@ == self@,
    {
        Mac(self.0.clone())
    }
}

impl Mac {
    /// Accept exactly the well-formed inputs and store them folded to
    /// lower case.
    pub fn try_parse(input: &str) -> (r: Result<Mac, Error>)
        ensures
            r is Ok <==> mac_wf(input@),
            r matches Ok(m) ==> m@ == lower_chars(input@),
            r matches Err(e) ==> e == Error::InvalidMac,
    {
        let n = input.unicode_len();
        if n != 17 {
            return Err(Error::InvalidMac);
        }
        let mut i: usize = 0;
        while i < 17
            invariant
                n == input@.len(),
                n == 17,
            i <= 17,
                forall|j: int|
                    0 <= j < i ==> (if (j + 1) % 3 == 0 {
                        input@[j] == ':'
                    } else {
                        is_hex_char(#[trigger] input@[j])
                    }),
            decreases 17 - i,
        {
            let c = input.get_char(i);
            let u = c as u32;
            if (i + 1) % 3 == 0 {
                if !(u == 58) {  // ':'
                    return Err(Error::InvalidMac);
                }
                proof {
                    assert(input@[i as int] == ':') by {
                        assert(input@[i as int] as u32 == 58);
                    }
                }
            } else {
                if !((48 <= u && u <= 57) || (97 <= u && u <= 102) || (65 <= u && u <= 70)) {
                    return Err(Error::InvalidMac);
                }
            }
            i = i + 1;
        }
        let mut out = String::new();
        let mut k: usize = 0;
        while k < 17
            invariant
                n == input@.len(),
                n == 17,
                k <= 17,
                out@ =~= lower_chars(input@).take(k as int),
            decreases 17 - k,
        {
            let c = input.get_char(k);
            let u = c as u32;
            let lc = if 65 <= u && u <= 90 {
                ((u + 32) as u8) as char
            } else {
                c
            };
            out.push(lc);
            proof {
                assert(out@ =~= lower_chars(input@).take(k as int + 1));
            }
            k = k + 1;
        }
        proof {
            assert(lower_chars(input@).take(17) =~= lower_chars(input@));
        }
        Ok(Mac(out))
    }

    /// The canonical textual form.
    pub fn to_string(&self) -> (r: &String)
        ensures
            r@ == self@,
    {
        &self.0
    }
}

} // verus!
