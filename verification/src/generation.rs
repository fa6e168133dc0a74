//! The physical generation ordinal and its directory name.

use crate::digits;
use crate::listing;
use crate::digits::{append_digits, parse_digits};
use vstd::prelude::*;
use vstd::utf8;

verus! {

/// The number of digits in a generation directory name.
pub const GENERATION_NAME_WIDTH: usize = 20;

/// The highest generation ordinal.
pub const MAXIMUM_GENERATION: u32 = 1_000_000;

/// The private physical generation ordinal used only by stored documents and paths.
#[derive(Clone, Copy, Debug, PartialEq, Eq, PartialOrd, Ord, Hash, Structural)]
pub struct StorageGeneration(u32);

/// The closed, redacted failure for a physical generation directory name.
#[derive(Clone, Copy, Debug, PartialEq, Eq, Structural)]
pub enum StorageGenerationDirectoryNameError {
    InvalidDirectoryName,
}

impl StorageGenerationDirectoryNameError {
    pub fn message(self) -> (text: &'static str)
        ensures
            text@ == "invalid storage generation directory name"@,
    {
        "invalid storage generation directory name"
    }
}

/// The canonical directory name of an ordinal: twenty decimal digits.
pub open spec fn generation_name(value: nat) -> Seq<u8> {
    digits::numeral(digits::digits(value, 10, 20))
}

/// The ordinal that a directory name denotes, if the name is canonical.
pub open spec fn canonical_generation(name: Seq<u8>) -> Option<nat> {
    if exists|n: nat| 1 <= n <= MAXIMUM_GENERATION && name == #[trigger] generation_name(n) {
        Some(choose|n: nat| 1 <= n <= MAXIMUM_GENERATION && name == #[trigger] generation_name(n))
    } else {
        None
    }
}

/// A generation's name denotes that generation.
pub proof fn lemma_canonical_generation(n: nat)
    requires
        1 <= n <= MAXIMUM_GENERATION,
    ensures
        canonical_generation(generation_name(n)) == Some(n),
{
    lemma_decimal_limit();
    let name = generation_name(n);
    let m = choose|m: nat| 1 <= m <= MAXIMUM_GENERATION && name == #[trigger] generation_name(m);
    lemma_generation_name_injective(n, m);
}

impl View for StorageGeneration {
    type V = nat;

    closed spec fn view(&self) -> nat {
        self.0 as nat
    }
}

impl StorageGeneration {
    #[verifier::type_invariant]
    spec fn in_range(self) -> bool {
        1 <= self.0 <= MAXIMUM_GENERATION
    }

    pub fn new(value: u32) -> (generation: Option<Self>)
        ensures
            generation is Some <==> 1 <= value <= MAXIMUM_GENERATION,
            generation matches Some(g) ==> g@ == value,
    {
        if value == 0 || value > MAXIMUM_GENERATION {
            None
        } else {
            Some(StorageGeneration(value))
        }
    }

    /// The first generation.
    pub fn first() -> (generation: Self)
        ensures
            generation == StorageGeneration::of(1),
            generation@ == 1,
    {
        StorageGeneration(1)
    }

    pub fn get(self) -> (value: u32)
        ensures
            value == self@,
            1 <= value <= MAXIMUM_GENERATION,
    {
        proof {
            use_type_invariant(&self);
        }
        self.0
    }

    /// The generation with a given ordinal.
    pub closed spec fn of(ordinal: nat) -> Self {
        StorageGeneration(ordinal as u32)
    }

    pub proof fn lemma_of(self)
        ensures
            StorageGeneration::of(self@) == self,
    {
    }

    pub proof fn lemma_of_ordinal(ordinal: nat)
        requires
            ordinal <= MAXIMUM_GENERATION,
        ensures
            StorageGeneration::of(ordinal)@ == ordinal,
    {
    }

    /// The ordinal directly below, if there is one.
    pub open spec fn spec_previous(self) -> Option<nat> {
        if self@ > 1 {
            Some((self@ - 1) as nat)
        } else {
            None
        }
    }

    /// The generation directly below, if there is one.
    pub fn previous(self) -> (generation: Option<Self>)
        ensures
            self.spec_previous() is Some <==> generation is Some,
            generation matches Some(g) ==> Some(g@) == self.spec_previous(),
    {
        StorageGeneration::new(self.get() - 1)
    }

    /// The generation directly above, if there is one.
    pub fn next(self) -> (generation: Option<Self>)
        ensures
            generation is Some <==> self@ < MAXIMUM_GENERATION,
            generation matches Some(g) ==> g@ == self@ + 1,
    {
        StorageGeneration::new(self.get() + 1)
    }

    /// The canonical directory name: twenty decimal digits.
    pub fn directory_name(self) -> (name: String)
        ensures
            name@ == digits::ascii_text(generation_name(self@)),
            utf8::encode_utf8(name@) == generation_name(self@),
    {
        let mut name = String::new();
        append_digits(&mut name, self.get() as u128, 10, GENERATION_NAME_WIDTH);
        proof {
            lemma_generation_name_text(self@);
            assert(name@ =~= digits::ascii_text(generation_name(self@)));
        }
        name
    }

    /// Parses the raw bytes of a directory name.
    pub fn parse_directory_name(value: &[u8]) -> (parsed: Result<
        Self,
        StorageGenerationDirectoryNameError,
    >)
        ensures
            match parsed {
                Ok(g) => canonical_generation(value@) == Some(g@) && value@ == generation_name(g@),
                Err(_) => canonical_generation(value@) is None,
            },
    {
        if value.len() != GENERATION_NAME_WIDTH {
            proof {
                assert forall|n: nat| value@ != #[trigger] generation_name(n) by {
                    digits::lemma_digits_shape(n, 10, 20);
                }
            }
            return Err(StorageGenerationDirectoryNameError::InvalidDirectoryName);
        }
        proof {
            lemma_decimal_limit();
            assert(value@.skip(0) =~= value@);
        }
        match parse_digits(value, 0, 10) {
            None => {
                proof {
                    assert forall|n: nat| value@ != #[trigger] generation_name(n) by {
                        digits::lemma_digits_shape(n, 10, 20);
                    }
                }
                Err(StorageGenerationDirectoryNameError::InvalidDirectoryName)
            },
            Some(number) => {
                if number == 0 || number > MAXIMUM_GENERATION as u128 {
                    proof {
                        assert forall|n: nat| 1 <= n <= MAXIMUM_GENERATION implies value@
                            != #[trigger] generation_name(n) by {
                            if value@ == generation_name(n) {
                                lemma_generation_name_injective(n, number as nat);
                            }
                        }
                    }
                    return Err(StorageGenerationDirectoryNameError::InvalidDirectoryName);
                }
                proof {
                    lemma_canonical_generation(number as nat);
                }
                Ok(StorageGeneration(number as u32))
            },
        }
    }

    /// Parses a directory name given as text.
    pub fn parse_directory_name_str(value: &str) -> (parsed: Result<
        Self,
        StorageGenerationDirectoryNameError,
    >)
        ensures
            match parsed {
                Ok(g) => canonical_generation(utf8::encode_utf8(value@)) == Some(g@),
                Err(_) => canonical_generation(utf8::encode_utf8(value@)) is None,
            },
    {
        StorageGeneration::parse_directory_name(value.as_bytes())
    }

    /// Two generations with the same ordinal are the same generation.
    pub proof fn lemma_view_injective(a: Self, b: Self)
        ensures
            a@ == b@ <==> a == b,
    {
    }
}

proof fn lemma_decimal_limit()
    ensures
        digits::limit(10, 20) == 100_000_000_000_000_000_000,
{
    reveal_with_fuel(digits::limit, 21);
}

proof fn lemma_generation_name_text(value: nat)
    ensures
        utf8::encode_utf8(digits::ascii_text(generation_name(value))) == generation_name(value),
{
    digits::lemma_digits_shape(value, 10, 20);
    digits::lemma_numeral_text(digits::digits(value, 10, 20));
}

/// No two ordinals share a directory name.
pub proof fn lemma_generation_name_injective(a: nat, b: nat)
    requires
        a < digits::limit(10, 20),
        b < digits::limit(10, 20),
        generation_name(a) == generation_name(b),
    ensures
        a == b,
{
    digits::lemma_digits_shape(a, 10, 20);
    digits::lemma_digits_shape(b, 10, 20);
    digits::lemma_numeral_injective(digits::digits(a, 10, 20), digits::digits(b, 10, 20));
    digits::lemma_number_of_digits(a, 10, 20);
    digits::lemma_number_of_digits(b, 10, 20);
}

/// A directory name parses back to the generation that it was written for, and to no other; and
/// names are ordered, byte by byte, as the generations are.
pub proof fn law_generation_name_round_trip(written: nat, read: nat)
    requires
        1 <= written <= MAXIMUM_GENERATION,
        1 <= read <= MAXIMUM_GENERATION,
    ensures
        generation_name(written).len() == 20,
        canonical_generation(generation_name(written)) == Some(written),
        generation_name(written) == generation_name(read) <==> written == read,
        listing::name_before(generation_name(written), generation_name(read)) <==> written < read,
{
    lemma_decimal_limit();
    digits::lemma_numeral_order(written, read, 10, 20);
    lemma_canonical_generation(written);
    lemma_canonical_generation(read);
    digits::lemma_digits_shape(written, 10, 20);
}

} // verus!
