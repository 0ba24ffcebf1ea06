//! Credentials: a user name, a password and a salt that exist together only
//! once the password has passed every check, in a fixed order.

use crate::ascii::{
    contains_digit, contains_punctuation, has_digit, has_punctuation, is_ascii_digit,
};
use crate::decimal::{decimal, lemma_decimal_digits, render_decimal};
use crate::history::HistoryCause;
use crate::text::same_text;
use vstd::prelude::*;
use vstd::string::*;
use vstd::utf8::{encode_utf8, is_ascii_chars, is_ascii_chars_encode_utf8};

verus! {

/// The least number of characters that a password may have.
pub const MIN_PASS_LEN: usize = 5;

/// Why a password was turned down.
#[derive(Clone, Copy, Debug, PartialEq, Eq, Structural)]
pub enum ValidationError {
    /// The password has no character at all.
    EmptyPassword,
    /// The password has fewer characters than `required`.
    TooShort { required: usize },
    /// The password holds no ASCII digit.
    MissingDigit,
    /// The password holds no ASCII punctuation.
    MissingSpecialChar,
    /// The password is the user name.
    SameAsUsername,
    /// The fingerprint of the credential stands in the history.
    PreviouslyUsed,
    /// The history could not be had, so nothing is known of earlier use.
    HistoryUnavailable { cause: HistoryCause },
}

/// What a credential holds, as three texts.
pub struct Credential {
    pub user: Seq<char>,
    pub pass: Seq<char>,
    pub salt: Seq<char>,
}

/// The first of the checks on the password alone that fails, in their fixed
/// order: emptiness, length, a digit, punctuation, difference from the user
/// name. `None` where all five pass.
pub open spec fn structural_failure(user: Seq<char>, pass: Seq<char>) -> Option<ValidationError> {
    if pass.len() == 0 {
        Some(ValidationError::EmptyPassword)
    } else if pass.len() < MIN_PASS_LEN {
        Some(ValidationError::TooShort { required: MIN_PASS_LEN })
    } else if !has_digit(pass) {
        Some(ValidationError::MissingDigit)
    } else if !has_punctuation(pass) {
        Some(ValidationError::MissingSpecialChar)
    } else if pass == user {
        Some(ValidationError::SameAsUsername)
    } else {
        None
    }
}

/// The number of bytes that a text takes in UTF-8.
pub open spec fn byte_len(s: Seq<char>) -> nat {
    encode_utf8(s).len()
}

/// The fingerprint of a credential: a weighted sum of the byte lengths of its
/// three texts. It tells earlier use apart from none; it is no digest.
pub open spec fn fingerprint(c: Credential) -> nat {
    byte_len(c.user) + 3 * byte_len(c.pass) + 7 * byte_len(c.salt)
}

/// The fingerprint of `c` stands in `history`.
pub open spec fn previously_used(c: Credential, history: Seq<u128>) -> bool {
    exists|i: int| 0 <= i < history.len() && #[trigger] history[i] == fingerprint(c)
}

/// The credential that a user name, a password and a salt make: the salt
/// stands in it as its decimal numeral.
pub open spec fn candidate(user: Seq<char>, pass: Seq<char>, salt: usize) -> Credential {
    Credential { user, pass, salt: decimal(salt as nat) }
}

/// What holds of every credential: its password passes the five checks on
/// the password alone, and its salt is the decimal numeral of a number.
pub open spec fn well_formed(c: Credential) -> bool {
    &&& structural_failure(c.user, c.pass) is None
    &&& exists|n: usize| c.salt == #[trigger] decimal(n as nat)
}

/// What creating a credential gives. The checks on the password alone come
/// first; then a history that could not be had fails with its cause; then a
/// history that holds the fingerprint fails; else the credential is made.
pub open spec fn creation_outcome(
    user: Seq<char>,
    pass: Seq<char>,
    salt: usize,
    history: Result<Seq<u128>, HistoryCause>,
) -> Result<Credential, ValidationError> {
    match structural_failure(user, pass) {
        Some(e) => Err(e),
        None => match history {
            Err(cause) => Err(ValidationError::HistoryUnavailable { cause }),
            Ok(numbers) => if previously_used(candidate(user, pass, salt), numbers) {
                Err(ValidationError::PreviouslyUsed)
            } else {
                Ok(candidate(user, pass, salt))
            },
        },
    }
}

/// A history as its numbers, or the cause for which there is none.
pub open spec fn history_view(history: Result<Vec<u128>, HistoryCause>) -> Result<
    Seq<u128>,
    HistoryCause,
> {
    match history {
        Ok(numbers) => Ok(numbers@),
        Err(cause) => Err(cause),
    }
}

/// A credential that has passed validation. None can be made in any other
/// way, and none changes once made.
pub struct RawPassword {
    user: String,
    pass: String,
    salt: String,
}

impl View for RawPassword {
    type V = Credential;

    closed spec fn view(&self) -> Credential {
        Credential { user: self.user@, pass: self.pass@, salt: self.salt@ }
    }
}

impl RawPassword {
    #[verifier::type_invariant]
    spec fn inv(&self) -> bool {
        well_formed(self@)
    }

    /// Runs the five checks on the password alone, in their fixed order, and
    /// reports the first that fails.
    pub fn validate_is_good(user: &str, pass: &str) -> (r: Result<(), ValidationError>)
        ensures
            r == match structural_failure(user@, pass@) {
                Some(e) => Err::<(), ValidationError>(e),
                None => Ok::<(), ValidationError>(()),
            },
    {
        if pass.is_empty() {
            Err(ValidationError::EmptyPassword)
        } else if pass.unicode_len() < MIN_PASS_LEN {
            Err(ValidationError::TooShort { required: MIN_PASS_LEN })
        } else if !contains_digit(pass) {
            Err(ValidationError::MissingDigit)
        } else if !contains_punctuation(pass) {
            Err(ValidationError::MissingSpecialChar)
        } else if same_text(pass, user) {
            Err(ValidationError::SameAsUsername)
        } else {
            Ok(())
        }
    }

    /// The user name.
    pub fn user(&self) -> (r: &str)
        ensures
            r@ == self@.user,
            well_formed(self@),
    {
        proof {
            use_type_invariant(self);
        }
        self.user.as_str()
    }

    /// The password.
    pub fn pass(&self) -> (r: &str)
        ensures
            r@ == self@.pass,
            well_formed(self@),
    {
        proof {
            use_type_invariant(self);
        }
        self.pass.as_str()
    }

    /// The salt, as its decimal numeral.
    pub fn salt(&self) -> (r: &str)
        ensures
            r@ == self@.salt,
            well_formed(self@),
    {
        proof {
            use_type_invariant(self);
        }
        self.salt.as_str()
    }

    /// The fingerprint of this credential.
    pub fn hash(&self) -> (fp: u128)
        ensures
            fp == fingerprint(self@),
    {
        let u = self.user.as_str().as_bytes().len() as u128;
        let p = self.pass.as_str().as_bytes().len() as u128;
        let s = self.salt.as_str().as_bytes().len() as u128;
        u + 3 * p + 7 * s
    }

    /// Looks for this credential's fingerprint in `history`.
    pub fn validate_is_not_past_password(&self, history: &[u128]) -> (r: Result<
        (),
        ValidationError,
    >)
        ensures
            r == if previously_used(self@, history@) {
                Err::<(), ValidationError>(ValidationError::PreviouslyUsed)
            } else {
                Ok::<(), ValidationError>(())
            },
    {
        let fp = self.hash();
        let n = history.len();
        let mut i: usize = 0;
        while i < n
            invariant
                i <= n,
                n == history@.len(),
                fp == fingerprint(self@),
                forall|k: int| 0 <= k < i ==> history@[k] != fingerprint(self@),
            decreases n - i,
        {
            if history[i] == fp {
                return Err(ValidationError::PreviouslyUsed);
            }
            i += 1;
        }
        Ok(())
    }

    /// Makes a credential of a user name, a password and a salt, given the
    /// history of fingerprints or the cause for which it could not be had.
    pub fn new_password(
        user: &str,
        pass: &str,
        salt: usize,
        history: Result<Vec<u128>, HistoryCause>,
    ) -> (r: Result<RawPassword, ValidationError>)
        ensures
            match creation_outcome(user@, pass@, salt, history_view(history)) {
                Ok(c) => r is Ok && r->Ok_0@ == c,
                Err(e) => r is Err && r->Err_0 == e,
            },
    {
        match Self::validate_is_good(user, pass) {
            Err(e) => {
                return Err(e);
            },
            Ok(_) => {},
        }
        let numbers = match history {
            Err(cause) => {
                return Err(ValidationError::HistoryUnavailable { cause });
            },
            Ok(numbers) => numbers,
        };
        let made = RawPassword {
            user: user.to_owned(),
            pass: pass.to_owned(),
            salt: render_decimal(salt),
        };
        match made.validate_is_not_past_password(numbers.as_slice()) {
            Err(e) => Err(e),
            Ok(_) => Ok(made),
        }
    }
}

/// An empty password is turned down as empty, whatever the user name, the
/// salt and the history are: emptiness is looked at before all else.
pub proof fn lemma_empty_password(
    user: Seq<char>,
    pass: Seq<char>,
    salt: usize,
    history: Result<Seq<u128>, HistoryCause>,
)
    requires
        pass.len() == 0,
    ensures
        creation_outcome(user, pass, salt, history) == Err::<Credential, ValidationError>(
            ValidationError::EmptyPassword,
        ),
{
}

/// A password of at least one character and fewer than five is turned down
/// as too short, whatever it holds.
pub proof fn lemma_short_password(
    user: Seq<char>,
    pass: Seq<char>,
    salt: usize,
    history: Result<Seq<u128>, HistoryCause>,
)
    requires
        0 < pass.len() < MIN_PASS_LEN,
    ensures
        creation_outcome(user, pass, salt, history) == Err::<Credential, ValidationError>(
            ValidationError::TooShort { required: 5 },
        ),
{
}

/// A password that is long enough and holds no ASCII digit is turned down
/// for the missing digit, even where every later check would pass.
pub proof fn lemma_password_without_digit(
    user: Seq<char>,
    pass: Seq<char>,
    salt: usize,
    history: Result<Seq<u128>, HistoryCause>,
)
    requires
        pass.len() >= MIN_PASS_LEN,
        !has_digit(pass),
    ensures
        creation_outcome(user, pass, salt, history) == Err::<Credential, ValidationError>(
            ValidationError::MissingDigit,
        ),
{
}

/// A password that is long enough, holds a digit and holds no ASCII
/// punctuation is turned down for the missing punctuation.
pub proof fn lemma_password_without_punctuation(
    user: Seq<char>,
    pass: Seq<char>,
    salt: usize,
    history: Result<Seq<u128>, HistoryCause>,
)
    requires
        pass.len() >= MIN_PASS_LEN,
        has_digit(pass),
        !has_punctuation(pass),
    ensures
        creation_outcome(user, pass, salt, history) == Err::<Credential, ValidationError>(
            ValidationError::MissingSpecialChar,
        ),
{
}

/// A password that is the user name is turned down for that, though it is
/// long enough and holds a digit and punctuation.
pub proof fn lemma_password_same_as_username(
    user: Seq<char>,
    pass: Seq<char>,
    salt: usize,
    history: Result<Seq<u128>, HistoryCause>,
)
    requires
        pass == user,
        pass.len() >= MIN_PASS_LEN,
        has_digit(pass),
        has_punctuation(pass),
    ensures
        creation_outcome(user, pass, salt, history) == Err::<Credential, ValidationError>(
            ValidationError::SameAsUsername,
        ),
{
}

/// Where the password passes the checks on the password alone and the
/// history could not be had, creation fails with the cause: no credential is
/// made unchecked.
pub proof fn lemma_history_unavailable(
    user: Seq<char>,
    pass: Seq<char>,
    salt: usize,
    cause: HistoryCause,
)
    requires
        structural_failure(user, pass) is None,
    ensures
        creation_outcome(user, pass, salt, Err(cause)) == Err::<Credential, ValidationError>(
            ValidationError::HistoryUnavailable { cause },
        ),
{
}

/// Where the password passes the checks on the password alone and the
/// history was had, the fingerprint decides: the credential is made unless
/// the history holds it.
pub proof fn lemma_history_decides(
    user: Seq<char>,
    pass: Seq<char>,
    salt: usize,
    numbers: Seq<u128>,
)
    requires
        structural_failure(user, pass) is None,
    ensures
        creation_outcome(user, pass, salt, Ok(numbers)) == if previously_used(
            candidate(user, pass, salt),
            numbers,
        ) {
            Err::<Credential, ValidationError>(ValidationError::PreviouslyUsed)
        } else {
            Ok::<Credential, ValidationError>(candidate(user, pass, salt))
        },
{
}

/// Whenever creation succeeds, the credential is well formed and holds the
/// user name and the password that were given.
pub proof fn lemma_created_is_well_formed(
    user: Seq<char>,
    pass: Seq<char>,
    salt: usize,
    history: Result<Seq<u128>, HistoryCause>,
)
    requires
        creation_outcome(user, pass, salt, history) is Ok,
    ensures
        well_formed(creation_outcome(user, pass, salt, history)->Ok_0),
        creation_outcome(user, pass, salt, history)->Ok_0 == candidate(user, pass, salt),
        history is Ok,
        !previously_used(candidate(user, pass, salt), history->Ok_0),
{
}

/// The salt takes one byte for each digit of its numeral, so the fingerprint
/// of a credential is the byte length of the user name, three times that of
/// the password and seven times the number of the salt's digits.
pub proof fn lemma_fingerprint_of_candidate(user: Seq<char>, pass: Seq<char>, salt: usize)
    ensures
        fingerprint(candidate(user, pass, salt)) == byte_len(user) + 3 * byte_len(pass) + 7
            * decimal(salt as nat).len(),
{
    let numeral = decimal(salt as nat);
    lemma_decimal_digits(salt as nat);
    assert(is_ascii_chars(numeral)) by {
        assert forall|i: int| 0 <= i < numeral.len() implies '\0' <= #[trigger] numeral[i]
            <= '\u{7f}' by {
            assert(is_ascii_digit(numeral[i]));
        }
    }
    is_ascii_chars_encode_utf8(numeral);
}

} // verus!
