//! Loading options and their integer form on the C ABI.

use vstd::prelude::*;

verus! {

/// How KenLM should bring binary model data into memory.
#[derive(Clone, Copy, Debug, PartialEq, Eq, Structural)]
pub enum LoadMethod {
    Lazy,
    PopulateOrLazy,
    PopulateOrRead,
    Read,
    ParallelRead,
}

/// How loudly KenLM should complain about loading ARPA instead of binary data.
#[derive(Clone, Copy, Debug, PartialEq, Eq, Structural)]
pub enum ArpaLoadComplain {
    All,
    Expensive,
    /// Never complain (KenLM's `NONE` level).
    Never,
}

/// The integer that stands for a load method on the C ABI.
pub open spec fn load_method_code(method: LoadMethod) -> int {
    match method {
        LoadMethod::Lazy => 0,
        LoadMethod::PopulateOrLazy => 1,
        LoadMethod::PopulateOrRead => 2,
        LoadMethod::Read => 3,
        LoadMethod::ParallelRead => 4,
    }
}

/// The load method that a C ABI integer decodes to; unknown codes mean `Lazy`.
pub open spec fn load_method_of_code(code: int) -> LoadMethod {
    if code == 1 {
        LoadMethod::PopulateOrLazy
    } else if code == 2 {
        LoadMethod::PopulateOrRead
    } else if code == 3 {
        LoadMethod::Read
    } else if code == 4 {
        LoadMethod::ParallelRead
    } else {
        LoadMethod::Lazy
    }
}

/// The integer that stands for a complaint level on the C ABI.
pub open spec fn arpa_complain_code(level: ArpaLoadComplain) -> int {
    match level {
        ArpaLoadComplain::All => 0,
        ArpaLoadComplain::Expensive => 1,
        ArpaLoadComplain::Never => 2,
    }
}

/// The complaint level that a C ABI integer decodes to; unknown codes mean `All`.
pub open spec fn arpa_complain_of_code(code: int) -> ArpaLoadComplain {
    if code == 1 {
        ArpaLoadComplain::Expensive
    } else if code == 2 {
        ArpaLoadComplain::Never
    } else {
        ArpaLoadComplain::All
    }
}

impl LoadMethod {
    /// The C ABI integer for this load method.
    pub fn to_raw(self) -> (code: i32)
        ensures
            code == load_method_code(self),
    {
        match self {
            LoadMethod::Lazy => 0,
            LoadMethod::PopulateOrLazy => 1,
            LoadMethod::PopulateOrRead => 2,
            LoadMethod::Read => 3,
            LoadMethod::ParallelRead => 4,
        }
    }

    /// Decode a C ABI integer written by KenLM; codes it does not know mean `Lazy`.
    pub fn from_raw(code: i32) -> (method: LoadMethod)
        ensures
            method == load_method_of_code(code as int),
    {
        match code {
            1 => LoadMethod::PopulateOrLazy,
            2 => LoadMethod::PopulateOrRead,
            3 => LoadMethod::Read,
            4 => LoadMethod::ParallelRead,
            _ => LoadMethod::Lazy,
        }
    }
}

impl ArpaLoadComplain {
    /// The C ABI integer for this complaint level.
    pub fn to_raw(self) -> (code: i32)
        ensures
            code == arpa_complain_code(self),
    {
        match self {
            ArpaLoadComplain::All => 0,
            ArpaLoadComplain::Expensive => 1,
            ArpaLoadComplain::Never => 2,
        }
    }

    /// Decode a C ABI integer written by KenLM; codes it does not know mean `All`.
    pub fn from_raw(code: i32) -> (level: ArpaLoadComplain)
        ensures
            level == arpa_complain_of_code(code as int),
    {
        match code {
            1 => ArpaLoadComplain::Expensive,
            2 => ArpaLoadComplain::Never,
            _ => ArpaLoadComplain::All,
        }
    }
}

/// The C ABI byte for a boolean flag, such as whether progress is shown.
pub fn flag_to_raw(set: bool) -> (flag: u8)
    ensures
        flag == (if set { 1u8 } else { 0u8 }),
{
    if set {
        1
    } else {
        0
    }
}

/// Decode a C ABI flag byte: any nonzero byte means the flag is set.
pub fn flag_from_raw(flag: u8) -> (set: bool)
    ensures
        set == (flag != 0),
{
    flag != 0
}

/// Decoding gives back every load method that was encoded.
pub proof fn lemma_load_method_round_trip(method: LoadMethod)
    ensures
        load_method_of_code(load_method_code(method)) == method,
{
}

/// Decoding gives back every complaint level that was encoded.
pub proof fn lemma_arpa_complain_round_trip(level: ArpaLoadComplain)
    ensures
        arpa_complain_of_code(arpa_complain_code(level)) == level,
{
}

/// Every code that KenLM knows decodes to the method whose code it is.
pub proof fn lemma_load_method_codes_decode(code: int)
    requires
        0 <= code <= 4,
    ensures
        load_method_code(load_method_of_code(code)) == code,
{
}

/// Every code that KenLM knows decodes to the level whose code it is.
pub proof fn lemma_arpa_complain_codes_decode(code: int)
    requires
        0 <= code <= 2,
    ensures
        arpa_complain_code(arpa_complain_of_code(code)) == code,
{
}

/// A flag survives its trip through the C ABI byte.
pub proof fn lemma_flag_round_trip(set: bool)
    ensures
        (if set { 1u8 } else { 0u8 } != 0) == set,
{
}

} // verus!
