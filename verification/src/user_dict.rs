//! Word classes of the user dictionary, and their mapping onto the word
//! classes of the C interface. The dictionary itself lives with the external
//! text analyzer; the library only carries the classification.

use vstd::prelude::*;

verus! {

/// The word classes a user-dictionary entry can carry.
#[derive(Clone, Copy, Debug, PartialEq, Eq, Structural)]
pub enum UserDictWordType {
    ProperNoun,
    CommonNoun,
    Verb,
    Adjective,
    Suffix,
}

/// The word classes of the C interface.
#[derive(Clone, Copy, Debug, PartialEq, Eq, Structural)]
pub enum VoicevoxUserDictWordType {
    VoicevoxUserDictWordTypeProperNoun,
    VoicevoxUserDictWordTypeCommonNoun,
    VoicevoxUserDictWordTypeVerb,
    VoicevoxUserDictWordTypeAdjective,
    VoicevoxUserDictWordTypeSuffix,
}

impl From<VoicevoxUserDictWordType> for UserDictWordType {
    fn from(value: VoicevoxUserDictWordType) -> (r: Self) {
        match value {
            VoicevoxUserDictWordType::VoicevoxUserDictWordTypeProperNoun =>
                UserDictWordType::ProperNoun,
            VoicevoxUserDictWordType::VoicevoxUserDictWordTypeCommonNoun =>
                UserDictWordType::CommonNoun,
            VoicevoxUserDictWordType::VoicevoxUserDictWordTypeVerb => UserDictWordType::Verb,
            VoicevoxUserDictWordType::VoicevoxUserDictWordTypeAdjective =>
                UserDictWordType::Adjective,
            VoicevoxUserDictWordType::VoicevoxUserDictWordTypeSuffix => UserDictWordType::Suffix,
        }
    }
}

impl vstd::std_specs::convert::FromSpecImpl<VoicevoxUserDictWordType> for UserDictWordType {
    open spec fn obeys_from_spec() -> bool {
        true
    }

    open spec fn from_spec(value: VoicevoxUserDictWordType) -> Self {
        match value {
            VoicevoxUserDictWordType::VoicevoxUserDictWordTypeProperNoun =>
                UserDictWordType::ProperNoun,
            VoicevoxUserDictWordType::VoicevoxUserDictWordTypeCommonNoun =>
                UserDictWordType::CommonNoun,
            VoicevoxUserDictWordType::VoicevoxUserDictWordTypeVerb => UserDictWordType::Verb,
            VoicevoxUserDictWordType::VoicevoxUserDictWordTypeAdjective =>
                UserDictWordType::Adjective,
            VoicevoxUserDictWordType::VoicevoxUserDictWordTypeSuffix => UserDictWordType::Suffix,
        }
    }
}

impl From<UserDictWordType> for VoicevoxUserDictWordType {
    fn from(value: UserDictWordType) -> (r: Self) {
        match value {
            UserDictWordType::ProperNoun =>
                VoicevoxUserDictWordType::VoicevoxUserDictWordTypeProperNoun,
            UserDictWordType::CommonNoun =>
                VoicevoxUserDictWordType::VoicevoxUserDictWordTypeCommonNoun,
            UserDictWordType::Verb => VoicevoxUserDictWordType::VoicevoxUserDictWordTypeVerb,
            UserDictWordType::Adjective =>
                VoicevoxUserDictWordType::VoicevoxUserDictWordTypeAdjective,
            UserDictWordType::Suffix => VoicevoxUserDictWordType::VoicevoxUserDictWordTypeSuffix,
        }
    }
}

impl vstd::std_specs::convert::FromSpecImpl<UserDictWordType> for VoicevoxUserDictWordType {
    open spec fn obeys_from_spec() -> bool {
        true
    }

    open spec fn from_spec(value: UserDictWordType) -> Self {
        match value {
            UserDictWordType::ProperNoun =>
                VoicevoxUserDictWordType::VoicevoxUserDictWordTypeProperNoun,
            UserDictWordType::CommonNoun =>
                VoicevoxUserDictWordType::VoicevoxUserDictWordTypeCommonNoun,
            UserDictWordType::Verb => VoicevoxUserDictWordType::VoicevoxUserDictWordTypeVerb,
            UserDictWordType::Adjective =>
                VoicevoxUserDictWordType::VoicevoxUserDictWordTypeAdjective,
            UserDictWordType::Suffix => VoicevoxUserDictWordType::VoicevoxUserDictWordTypeSuffix,
        }
    }
}

/// The two conversions are mutually inverse.
pub proof fn lemma_word_type_round_trip(value: UserDictWordType, c: VoicevoxUserDictWordType)
    ensures
        <VoicevoxUserDictWordType as vstd::std_specs::convert::FromSpec<UserDictWordType>>::from_spec(
            <UserDictWordType as vstd::std_specs::convert::FromSpec<VoicevoxUserDictWordType>>::from_spec(c),
        ) == c,
        <UserDictWordType as vstd::std_specs::convert::FromSpec<VoicevoxUserDictWordType>>::from_spec(
            <VoicevoxUserDictWordType as vstd::std_specs::convert::FromSpec<UserDictWordType>>::from_spec(value),
        ) == value,
{
}

} // verus!
