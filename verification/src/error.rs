//! Errors of the bindings, and the text that describes each of them.

use vstd::prelude::*;

verus! {

/// No byte of `bytes` is NUL.
pub open spec fn nul_free(bytes: Seq<u8>) -> bool {
    forall|i: int| 0 <= i < bytes.len() ==> bytes[i] != 0
}

/// `position` is where the first NUL byte of `bytes` stands.
pub open spec fn first_nul_at(bytes: Seq<u8>, position: int) -> bool {
    &&& 0 <= position < bytes.len()
    &&& bytes[position] == 0
    &&& nul_free(bytes.take(position))
}

/// The position of the first NUL byte of `bytes`, if it holds one.
pub fn nul_position(bytes: &[u8]) -> (position: Option<usize>)
    ensures
        position matches Some(p) ==> first_nul_at(bytes@, p as int),
        position is None <==> nul_free(bytes@),
{
    let mut i: usize = 0;
    while i < bytes.len()
        invariant
            i <= bytes@.len(),
            nul_free(bytes@.take(i as int)),
        decreases bytes@.len() - i,
    {
        if bytes[i] == 0 {
            return Some(i);
        }
        assert(bytes@.take(i + 1) =~= bytes@.take(i as int).push(bytes@[i as int]));
        i = i + 1;
    }
    assert(bytes@.take(i as int) =~= bytes@);
    None
}

/// Bytes that cannot become a C string, and where their first NUL byte stands.
#[derive(Debug)]
pub struct NulError {
    position: usize,
    bytes: Vec<u8>,
}

/// The mathematical content of a [`NulError`].
pub struct NulErrorView {
    pub position: nat,
    pub bytes: Seq<u8>,
}

impl View for NulError {
    type V = NulErrorView;

    closed spec fn view(&self) -> NulErrorView {
        NulErrorView { position: self.position as nat, bytes: self.bytes@ }
    }
}

impl NulError {
    #[verifier::type_invariant]
    spec fn well_formed(self) -> bool {
        first_nul_at(self.bytes@, self.position as int)
    }

    /// Give `bytes` back when none of them is NUL, so that they can become a C
    /// string; otherwise the error that names their first NUL byte.
    pub fn check(bytes: Vec<u8>) -> (result: Result<Vec<u8>, NulError>)
        ensures
            result is Ok <==> nul_free(bytes@),
            result matches Ok(b) ==> b@ == bytes@,
            result matches Err(e) ==> e@.bytes == bytes@ && first_nul_at(bytes@, e@.position as int),
    {
        match nul_position(bytes.as_slice()) {
            Some(position) => Err(NulError { position, bytes }),
            None => Ok(bytes),
        }
    }

    /// The position of the first NUL byte.
    pub fn nul_position(&self) -> (position: usize)
        ensures
            position == self@.position,
            first_nul_at(self@.bytes, position as int),
    {
        proof {
            use_type_invariant(self);
        }
        self.position
    }

    /// The bytes that held the NUL byte.
    pub fn as_bytes(&self) -> (bytes: &[u8])
        ensures
            bytes@ == self@.bytes,
    {
        self.bytes.as_slice()
    }

    /// Take back the bytes that held the NUL byte.
    pub fn into_vec(self) -> (bytes: Vec<u8>)
        ensures
            bytes@ == self@.bytes,
    {
        self.bytes
    }
}

impl Clone for NulError {
    fn clone(&self) -> (copy: Self)
        ensures
            copy@ == self@,
    {
        proof {
            use_type_invariant(self);
        }
        NulError { position: self.position, bytes: self.bytes.clone() }
    }
}

/// Errors returned by the KenLM bindings.
#[derive(Debug)]
pub enum KenlmError {
    /// A path or word held a NUL byte and cannot cross the C ABI.
    InteriorNul(NulError),
    /// KenLM could not load the requested model, or failed while answering a query.
    Load(String),
    /// A state created by one model was used with another model.
    StateModelMismatch,
}

/// The character for a decimal digit.
pub open spec fn digit_char(d: nat) -> char {
    if d == 0 {
        '0'
    } else if d == 1 {
        '1'
    } else if d == 2 {
        '2'
    } else if d == 3 {
        '3'
    } else if d == 4 {
        '4'
    } else if d == 5 {
        '5'
    } else if d == 6 {
        '6'
    } else if d == 7 {
        '7'
    } else if d == 8 {
        '8'
    } else {
        '9'
    }
}

/// The decimal numeral of `n`, most significant digit first, without leading zeros.
pub open spec fn decimal(n: nat) -> Seq<char>
    decreases n,
{
    if n < 10 {
        seq![digit_char(n)]
    } else {
        decimal(n / 10) + seq![digit_char(n % 10)]
    }
}

/// The text reported for a failure whose KenLM message is `message`.
pub open spec fn failure_text(message: Seq<char>) -> Seq<char> {
    if message.len() == 0 {
        "unknown KenLM error"@
    } else {
        message
    }
}

/// The text that describes an error.
pub open spec fn error_text(error: KenlmError) -> Seq<char> {
    match error {
        KenlmError::InteriorNul(e) => "string contains an interior NUL byte: "@
            + "nul byte found in provided data at position: "@ + decimal(e@.position),
        KenlmError::Load(message) => message@,
        KenlmError::StateModelMismatch => "KenLM state was created by a different model"@,
    }
}

fn digit_text(d: usize) -> (text: &'static str)
    requires
        d < 10,
    ensures
        text@ == seq![digit_char(d as nat)],
{
    proof {
        reveal_strlit("0");
        reveal_strlit("1");
        reveal_strlit("2");
        reveal_strlit("3");
        reveal_strlit("4");
        reveal_strlit("5");
        reveal_strlit("6");
        reveal_strlit("7");
        reveal_strlit("8");
        reveal_strlit("9");
    }
    if d == 0 {
        "0"
    } else if d == 1 {
        "1"
    } else if d == 2 {
        "2"
    } else if d == 3 {
        "3"
    } else if d == 4 {
        "4"
    } else if d == 5 {
        "5"
    } else if d == 6 {
        "6"
    } else if d == 7 {
        "7"
    } else if d == 8 {
        "8"
    } else {
        "9"
    }
}

/// Append the decimal numeral of `n` to `text`.
pub fn push_decimal(text: &mut String, n: usize)
    ensures
        final(text)@ == old(text)@ + decimal(n as nat),
    decreases n,
{
    if n < 10 {
        text.append(digit_text(n));
    } else {
        push_decimal(text, n / 10);
        text.append(digit_text(n % 10));
        proof {
            assert(final(text)@ =~= old(text)@ + decimal(n as nat));
        }
    }
}

/// The error reported when KenLM fails with `message`; an empty message is
/// replaced by a generic one.
pub fn failure(message: String) -> (error: KenlmError)
    ensures
        error matches KenlmError::Load(text) && text@ == failure_text(message@),
{
    if message.as_str().is_empty() {
        KenlmError::Load(String::from_str("unknown KenLM error"))
    } else {
        KenlmError::Load(message)
    }
}

impl KenlmError {
    /// The human-readable description of this error.
    pub fn message(&self) -> (text: String)
        ensures
            text@ == error_text(*self),
    {
        match self {
            KenlmError::InteriorNul(e) => {
                let mut text = String::from_str("string contains an interior NUL byte: ");
                text.append("nul byte found in provided data at position: ");
                push_decimal(&mut text, e.nul_position());
                text
            },
            KenlmError::Load(message) => message.clone(),
            KenlmError::StateModelMismatch => String::from_str(
                "KenLM state was created by a different model",
            ),
        }
    }
}

} // verus!
