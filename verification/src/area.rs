//! Board squares ("areas") and the effects they trigger.
//!
//! An effect is a closed sum over the kinds a square can carry.  Each kind
//! knows how to describe itself in the selected locale and how to mutate the
//! player status table when the square is landed on.

use crate::error::GameSystemError;
use crate::player_status::first_name_index;
use crate::player_status::lemma_first_name_index;
use crate::player_status::PlayerStatus;
use crate::player_status::PlayerStatusTable;
use crate::preferences::Language;
use crate::preferences::Preferences;
use crate::text::dec_str;
use crate::text::parse_u8;
use crate::text::parse_usize;
use crate::text::remove_whitespace;
use crate::text::remove_ws;
use crate::text::spec_parse_u8;
use crate::text::spec_parse_usize;
use crate::text::spec_split;
use crate::text::split_char;
use crate::text::str_eq;
use crate::text::strs_view;
use crate::text::usize_to_string;
use vstd::prelude::*;

verus! {

/// Everything that can go wrong while parsing an
/// `EffectName: key=value, ...` effect specification.  These errors occur at
/// board-load time and are fatal to the load.
#[derive(Clone, Debug, PartialEq, Eq)]
pub enum EffectParseError {
    /// The specification is not exactly `name: parameters`.
    Format,
    /// A parameter is not exactly `key=value`.
    KeyValueFormat,
    /// The same key was given twice; carries the key.
    DuplicateKey(String),
    /// A key the effect does not take; carries the key.
    WrongParameter(String),
    /// A value that does not parse; carries the key and the expected input
    /// format of the effect.
    ParseParameter(String, String),
    /// Parameters handed to an effect that takes none.
    UnexpectedParameters,
    /// An unknown effect name; carries it.
    NotFoundAreaType(String),
}

impl EffectParseError {
    /// The report shown to the user for this error.
    pub open spec fn spec_message(self) -> Seq<char> {
        match self {
            EffectParseError::Format => (
            "failed to parse an area effect (the correct format is `EffectName: [parameters...]`).")@,
            EffectParseError::KeyValueFormat => (
            "failed to parse area effect parameters (the correct format is comma separated `key = value` list).")@,
            EffectParseError::DuplicateKey(key) => ("failed to parse area effect parameters (`")@
                + key@ + ("` is duplicated).")@,
            EffectParseError::WrongParameter(key) => key@ + (" is a wrong parameter")@,
            EffectParseError::ParseParameter(key, format) => ("failed to parse a prameter `")@
                + key@ + ("` (the correct format is ")@ + format@ + (")")@,
            EffectParseError::UnexpectedParameters => ("parameters must not exist")@,
            EffectParseError::NotFoundAreaType(name) => ("Area type is not found: ")@ + name@,
        }
    }

    /// Renders the error as text.
    pub fn message(&self) -> (r: String)
        ensures
            r@ == self.spec_message(),
    {
        match self {
            EffectParseError::Format => String::from_str(
                "failed to parse an area effect (the correct format is `EffectName: [parameters...]`).",
            ),
            EffectParseError::KeyValueFormat => String::from_str(
                "failed to parse area effect parameters (the correct format is comma separated `key = value` list).",
            ),
            EffectParseError::DuplicateKey(key) => {
                let mut s = String::from_str("failed to parse area effect parameters (`");
                s.append(key.as_str());
                s.append("` is duplicated).");
                s
            },
            EffectParseError::WrongParameter(key) => {
                let mut s = key.clone();
                s.append(" is a wrong parameter");
                s
            },
            EffectParseError::ParseParameter(key, format) => {
                let mut s = String::from_str("failed to parse a prameter `");
                s.append(key.as_str());
                s.append("` (the correct format is ");
                s.append(format.as_str());
                s.append(")");
                s
            },
            EffectParseError::UnexpectedParameters => String::from_str("parameters must not exist"),
            EffectParseError::NotFoundAreaType(name) => {
                let mut s = String::from_str("Area type is not found: ");
                s.append(name.as_str());
                s
            },
        }
    }
}

/// The view of a list of key-value `String` pairs as character sequences.
pub open spec fn pairs_view(v: Seq<(String, String)>) -> Seq<(Seq<char>, Seq<char>)> {
    v.map_values(|p: (String, String)| (p.0@, p.1@))
}

/// What scanning comma-separated `key=value` parameters yields: the pairs in
/// order, or the first malformed pair, or the first repeated key.
pub enum KvOutcome {
    Pairs(Seq<(Seq<char>, Seq<char>)>),
    BadPair,
    Duplicate(Seq<char>),
}

pub open spec fn spec_kv_rec(segs: Seq<Seq<char>>, acc: Seq<(Seq<char>, Seq<char>)>) -> KvOutcome
    decreases segs.len(),
{
    if segs.len() == 0 {
        KvOutcome::Pairs(acc)
    } else {
        let parts = spec_split(segs[0], '=');
        if parts.len() != 2 {
            KvOutcome::BadPair
        } else if exists|i: int| 0 <= i < acc.len() && acc[i].0 == parts[0] {
            KvOutcome::Duplicate(parts[0])
        } else {
            spec_kv_rec(segs.drop_first(), acc.push((parts[0], parts[1])))
        }
    }
}

pub open spec fn spec_key_values(s: Seq<char>) -> KvOutcome {
    spec_kv_rec(spec_split(s, ','), Seq::empty())
}

/// Splits an effect's parameter blob into its `key=value` pairs, keeping
/// their order and rejecting malformed pairs and repeated keys.
pub fn try_get_key_value_list(effect_parameters: &str) -> (r: Result<
    Vec<(String, String)>,
    EffectParseError,
>)
    ensures
        match r {
            Ok(v) => spec_key_values(effect_parameters@) == KvOutcome::Pairs(pairs_view(v@)),
            Err(EffectParseError::KeyValueFormat) => spec_key_values(effect_parameters@)
                == KvOutcome::BadPair,
            Err(EffectParseError::DuplicateKey(k)) => spec_key_values(effect_parameters@)
                == KvOutcome::Duplicate(k@),
            Err(_) => false,
        },
{
    let segs = split_char(effect_parameters, ',');
    let ghost segsv = strs_view(segs@);
    let mut acc: Vec<(String, String)> = Vec::new();
    let n = segs.len();
    let mut j: usize = 0;
    proof {
        assert(segsv.skip(0) =~= segsv);
        assert(pairs_view(acc@) =~= Seq::<(Seq<char>, Seq<char>)>::empty());
    }
    while j < n
        invariant
            n == segs@.len(),
            j <= n,
            segsv == strs_view(segs@),
            spec_key_values(effect_parameters@) == spec_kv_rec(
                segsv.skip(j as int),
                pairs_view(acc@),
            ),
        decreases n - j,
    {
        proof {
            assert(segsv.skip(j as int)[0] == segsv[j as int]);
            assert(segsv[j as int] == segs@[j as int]@);
            assert(segsv.skip(j as int).drop_first() =~= segsv.skip(j + 1));
        }
        let parts = split_char(segs[j].as_str(), '=');
        if parts.len() != 2 {
            return Err(EffectParseError::KeyValueFormat);
        }
        let key = parts[0].clone();
        let value = parts[1].clone();
        proof {
            assert(strs_view(parts@)[0] == parts@[0]@);
            assert(strs_view(parts@)[1] == parts@[1]@);
        }
        let m = acc.len();
        let mut i: usize = 0;
        while i < m
            invariant
                m == acc@.len(),
                i <= m,
                n == segs@.len(),
                j < n,
                segsv == strs_view(segs@),
                spec_key_values(effect_parameters@) == spec_kv_rec(
                    segsv.skip(j as int),
                    pairs_view(acc@),
                ),
                spec_split(segsv[j as int], '=').len() == 2,
                key@ == spec_split(segsv[j as int], '=')[0],
                forall|q: int| 0 <= q < i ==> pairs_view(acc@)[q].0 != key@,
            decreases m - i,
        {
            proof {
                assert(pairs_view(acc@)[i as int].0 == acc@[i as int].0@);
            }
            if str_eq(acc[i].0.as_str(), key.as_str()) {
                proof {
                    assert(pairs_view(acc@)[i as int].0 == key@);
                    assert(segsv.skip(j as int)[0] == segsv[j as int]);
                    assert(spec_kv_rec(segsv.skip(j as int), pairs_view(acc@))
                        == KvOutcome::Duplicate(spec_split(segsv[j as int], '=')[0]));
                }
                return Err(EffectParseError::DuplicateKey(key));
            }
            i = i + 1;
        }
        proof {
            assert(pairs_view(acc@.push((key, value))) =~= pairs_view(acc@).push((key@, value@)));
        }
        acc.push((key, value));
        j = j + 1;
    }
    proof {
        assert(segsv.skip(n as int) =~= Seq::<Seq<char>>::empty());
    }
    Ok(acc)
}

/// What scanning the pairs for a single `u8`-valued key yields: the last
/// value given (zero when the key never occurs), or the first offending key.
pub enum U8ParamOutcome {
    Value(u8),
    BadPair,
    Duplicate(Seq<char>),
    Wrong(Seq<char>),
    Unparsable(Seq<char>),
}

pub open spec fn spec_u8_param_rec(
    pairs: Seq<(Seq<char>, Seq<char>)>,
    key: Seq<char>,
    acc: u8,
) -> U8ParamOutcome
    decreases pairs.len(),
{
    if pairs.len() == 0 {
        U8ParamOutcome::Value(acc)
    } else if pairs[0].0 != key {
        U8ParamOutcome::Wrong(pairs[0].0)
    } else {
        match spec_parse_u8(pairs[0].1) {
            Some(v) => spec_u8_param_rec(pairs.drop_first(), key, v),
            None => U8ParamOutcome::Unparsable(pairs[0].0),
        }
    }
}

pub open spec fn spec_u8_param(s: Seq<char>, key: Seq<char>) -> U8ParamOutcome {
    match spec_key_values(s) {
        KvOutcome::Pairs(pairs) => spec_u8_param_rec(pairs, key, 0),
        KvOutcome::BadPair => U8ParamOutcome::BadPair,
        KvOutcome::Duplicate(k) => U8ParamOutcome::Duplicate(k),
    }
}

/// As `U8ParamOutcome`, for a `usize`-valued key.
pub enum UsizeParamOutcome {
    Value(usize),
    BadPair,
    Duplicate(Seq<char>),
    Wrong(Seq<char>),
    Unparsable(Seq<char>),
}

pub open spec fn spec_usize_param_rec(
    pairs: Seq<(Seq<char>, Seq<char>)>,
    key: Seq<char>,
    acc: usize,
) -> UsizeParamOutcome
    decreases pairs.len(),
{
    if pairs.len() == 0 {
        UsizeParamOutcome::Value(acc)
    } else if pairs[0].0 != key {
        UsizeParamOutcome::Wrong(pairs[0].0)
    } else {
        match spec_parse_usize(pairs[0].1) {
            Some(v) => spec_usize_param_rec(pairs.drop_first(), key, v),
            None => UsizeParamOutcome::Unparsable(pairs[0].0),
        }
    }
}

pub open spec fn spec_usize_param(s: Seq<char>, key: Seq<char>) -> UsizeParamOutcome {
    match spec_key_values(s) {
        KvOutcome::Pairs(pairs) => spec_usize_param_rec(pairs, key, 0),
        KvOutcome::BadPair => UsizeParamOutcome::BadPair,
        KvOutcome::Duplicate(k) => UsizeParamOutcome::Duplicate(k),
    }
}

/// Reads the one `u8`-valued parameter an effect takes.
fn parse_u8_param(effect_parameters: &str, key: &str, format: &'static str) -> (r: Result<
    u8,
    EffectParseError,
>)
    ensures
        match r {
            Ok(v) => spec_u8_param(effect_parameters@, key@) == U8ParamOutcome::Value(v),
            Err(EffectParseError::KeyValueFormat) => spec_u8_param(effect_parameters@, key@)
                == U8ParamOutcome::BadPair,
            Err(EffectParseError::DuplicateKey(k)) => spec_u8_param(effect_parameters@, key@)
                == U8ParamOutcome::Duplicate(k@),
            Err(EffectParseError::WrongParameter(k)) => spec_u8_param(effect_parameters@, key@)
                == U8ParamOutcome::Wrong(k@),
            Err(EffectParseError::ParseParameter(k, f)) => spec_u8_param(effect_parameters@, key@)
                == U8ParamOutcome::Unparsable(k@) && f@ == format@,
            Err(_) => false,
        },
{
    let pairs = match try_get_key_value_list(effect_parameters) {
        Ok(pairs) => pairs,
        Err(e) => {
            return Err(e);
        },
    };
    let ghost pv = pairs_view(pairs@);
    let n = pairs.len();
    let mut value: u8 = 0;
    let mut j: usize = 0;
    proof {
        assert(pv.skip(0) =~= pv);
    }
    while j < n
        invariant
            n == pairs@.len(),
            j <= n,
            pv == pairs_view(pairs@),
            spec_key_values(effect_parameters@) == KvOutcome::Pairs(pv),
            spec_u8_param_rec(pv, key@, 0) == spec_u8_param_rec(pv.skip(j as int), key@, value),
        decreases n - j,
    {
        proof {
            assert(pv.skip(j as int)[0] == pv[j as int]);
            assert(pv[j as int] == (pairs@[j as int].0@, pairs@[j as int].1@));
            assert(pv.skip(j as int).drop_first() =~= pv.skip(j + 1));
        }
        if !str_eq(pairs[j].0.as_str(), key) {
            return Err(EffectParseError::WrongParameter(pairs[j].0.clone()));
        }
        match parse_u8(pairs[j].1.as_str()) {
            Some(v) => {
                value = v;
            },
            None => {
                return Err(
                    EffectParseError::ParseParameter(pairs[j].0.clone(), String::from_str(format)),
                );
            },
        }
        j = j + 1;
    }
    proof {
        assert(pv.skip(n as int) =~= Seq::<(Seq<char>, Seq<char>)>::empty());
    }
    Ok(value)
}

/// Reads the one `usize`-valued parameter an effect takes.
fn parse_usize_param(effect_parameters: &str, key: &str, format: &'static str) -> (r: Result<
    usize,
    EffectParseError,
>)
    ensures
        match r {
            Ok(v) => spec_usize_param(effect_parameters@, key@) == UsizeParamOutcome::Value(v),
            Err(EffectParseError::KeyValueFormat) => spec_usize_param(effect_parameters@, key@)
                == UsizeParamOutcome::BadPair,
            Err(EffectParseError::DuplicateKey(k)) => spec_usize_param(effect_parameters@, key@)
                == UsizeParamOutcome::Duplicate(k@),
            Err(EffectParseError::WrongParameter(k)) => spec_usize_param(effect_parameters@, key@)
                == UsizeParamOutcome::Wrong(k@),
            Err(EffectParseError::ParseParameter(k, f)) => spec_usize_param(
                effect_parameters@,
                key@,
            ) == UsizeParamOutcome::Unparsable(k@) && f@ == format@,
            Err(_) => false,
        },
{
    let pairs = match try_get_key_value_list(effect_parameters) {
        Ok(pairs) => pairs,
        Err(e) => {
            return Err(e);
        },
    };
    let ghost pv = pairs_view(pairs@);
    let n = pairs.len();
    let mut value: usize = 0;
    let mut j: usize = 0;
    proof {
        assert(pv.skip(0) =~= pv);
    }
    while j < n
        invariant
            n == pairs@.len(),
            j <= n,
            pv == pairs_view(pairs@),
            spec_key_values(effect_parameters@) == KvOutcome::Pairs(pv),
            spec_usize_param_rec(pv, key@, 0) == spec_usize_param_rec(
                pv.skip(j as int),
                key@,
                value,
            ),
        decreases n - j,
    {
        proof {
            assert(pv.skip(j as int)[0] == pv[j as int]);
            assert(pv[j as int] == (pairs@[j as int].0@, pairs@[j as int].1@));
            assert(pv.skip(j as int).drop_first() =~= pv.skip(j + 1));
        }
        if !str_eq(pairs[j].0.as_str(), key) {
            return Err(EffectParseError::WrongParameter(pairs[j].0.clone()));
        }
        match parse_usize(pairs[j].1.as_str()) {
            Some(v) => {
                value = v;
            },
            None => {
                return Err(
                    EffectParseError::ParseParameter(pairs[j].0.clone(), String::from_str(format)),
                );
            },
        }
        j = j + 1;
    }
    proof {
        assert(pv.skip(n as int) =~= Seq::<(Seq<char>, Seq<char>)>::empty());
    }
    Ok(value)
}

impl GoToStart {
    /// Parses the parameter blob of a `GoToStart:` specification, which must
    /// be empty.
    pub fn from_str(effect_parameters: &str) -> (r: Result<Self, EffectParseError>)
        ensures
            match r {
                Ok(_) => effect_parameters@.len() == 0,
                Err(EffectParseError::UnexpectedParameters) => effect_parameters@.len() != 0,
                Err(_) => false,
            },
    {
        if !effect_parameters.is_empty() {
            return Err(EffectParseError::UnexpectedParameters);
        }
        Ok(Self::new())
    }
}

impl SkipSelf {
    /// Parses the parameter blob of a `SkipSelf:` specification.
    pub fn from_str(effect_parameters: &str) -> (r: Result<Self, EffectParseError>)
        ensures
            match r {
                Ok(eff) => spec_u8_param(effect_parameters@, ("times")@) == U8ParamOutcome::Value(
                    eff.num_skip,
                ),
                Err(EffectParseError::KeyValueFormat) => spec_u8_param(
                    effect_parameters@,
                    ("times")@,
                ) == U8ParamOutcome::BadPair,
                Err(EffectParseError::DuplicateKey(k)) => spec_u8_param(
                    effect_parameters@,
                    ("times")@,
                ) == U8ParamOutcome::Duplicate(k@),
                Err(EffectParseError::WrongParameter(k)) => spec_u8_param(
                    effect_parameters@,
                    ("times")@,
                ) == U8ParamOutcome::Wrong(k@),
                Err(EffectParseError::ParseParameter(k, f)) => spec_u8_param(
                    effect_parameters@,
                    ("times")@,
                ) == U8ParamOutcome::Unparsable(k@) && f@ == Self::spec_input_format(),
                Err(_) => false,
            },
    {
        match parse_u8_param(effect_parameters, "times", Self::input_format()) {
            Ok(v) => Ok(Self::new(v)),
            Err(e) => Err(e),
        }
    }
}

impl PushSelf {
    /// Parses the parameter blob of a `PushSelf:` specification.
    pub fn from_str(effect_parameters: &str) -> (r: Result<Self, EffectParseError>)
        ensures
            match r {
                Ok(eff) => spec_usize_param(effect_parameters@, ("num")@)
                    == UsizeParamOutcome::Value(eff.num_step),
                Err(EffectParseError::KeyValueFormat) => spec_usize_param(
                    effect_parameters@,
                    ("num")@,
                ) == UsizeParamOutcome::BadPair,
                Err(EffectParseError::DuplicateKey(k)) => spec_usize_param(
                    effect_parameters@,
                    ("num")@,
                ) == UsizeParamOutcome::Duplicate(k@),
                Err(EffectParseError::WrongParameter(k)) => spec_usize_param(
                    effect_parameters@,
                    ("num")@,
                ) == UsizeParamOutcome::Wrong(k@),
                Err(EffectParseError::ParseParameter(k, f)) => spec_usize_param(
                    effect_parameters@,
                    ("num")@,
                ) == UsizeParamOutcome::Unparsable(k@) && f@ == Self::spec_input_format(),
                Err(_) => false,
            },
    {
        match parse_usize_param(effect_parameters, "num", Self::input_format()) {
            Ok(v) => Ok(Self::new(v)),
            Err(e) => Err(e),
        }
    }
}

impl PushOthersAll {
    /// Parses the parameter blob of a `PushOthersAll:` specification.
    pub fn from_str(effect_parameters: &str) -> (r: Result<Self, EffectParseError>)
        ensures
            match r {
                Ok(eff) => spec_usize_param(effect_parameters@, ("num")@)
                    == UsizeParamOutcome::Value(eff.num_step),
                Err(EffectParseError::KeyValueFormat) => spec_usize_param(
                    effect_parameters@,
                    ("num")@,
                ) == UsizeParamOutcome::BadPair,
                Err(EffectParseError::DuplicateKey(k)) => spec_usize_param(
                    effect_parameters@,
                    ("num")@,
                ) == UsizeParamOutcome::Duplicate(k@),
                Err(EffectParseError::WrongParameter(k)) => spec_usize_param(
                    effect_parameters@,
                    ("num")@,
                ) == UsizeParamOutcome::Wrong(k@),
                Err(EffectParseError::ParseParameter(k, f)) => spec_usize_param(
                    effect_parameters@,
                    ("num")@,
                ) == UsizeParamOutcome::Unparsable(k@) && f@ == Self::spec_input_format(),
                Err(_) => false,
            },
    {
        match parse_usize_param(effect_parameters, "num", Self::input_format()) {
            Ok(v) => Ok(Self::new(v)),
            Err(e) => Err(e),
        }
    }
}

impl PullSelf {
    /// Parses the parameter blob of a `PullSelf:` specification.
    pub fn from_str(effect_parameters: &str) -> (r: Result<Self, EffectParseError>)
        ensures
            match r {
                Ok(eff) => spec_usize_param(effect_parameters@, ("num")@)
                    == UsizeParamOutcome::Value(eff.num_step),
                Err(EffectParseError::KeyValueFormat) => spec_usize_param(
                    effect_parameters@,
                    ("num")@,
                ) == UsizeParamOutcome::BadPair,
                Err(EffectParseError::DuplicateKey(k)) => spec_usize_param(
                    effect_parameters@,
                    ("num")@,
                ) == UsizeParamOutcome::Duplicate(k@),
                Err(EffectParseError::WrongParameter(k)) => spec_usize_param(
                    effect_parameters@,
                    ("num")@,
                ) == UsizeParamOutcome::Wrong(k@),
                Err(EffectParseError::ParseParameter(k, f)) => spec_usize_param(
                    effect_parameters@,
                    ("num")@,
                ) == UsizeParamOutcome::Unparsable(k@) && f@ == Self::spec_input_format(),
                Err(_) => false,
            },
    {
        match parse_usize_param(effect_parameters, "num", Self::input_format()) {
            Ok(v) => Ok(Self::new(v)),
            Err(e) => Err(e),
        }
    }
}

impl PullOthersAll {
    /// Parses the parameter blob of a `PullOthersAll:` specification.
    pub fn from_str(effect_parameters: &str) -> (r: Result<Self, EffectParseError>)
        ensures
            match r {
                Ok(eff) => spec_usize_param(effect_parameters@, ("num")@)
                    == UsizeParamOutcome::Value(eff.num_step),
                Err(EffectParseError::KeyValueFormat) => spec_usize_param(
                    effect_parameters@,
                    ("num")@,
                ) == UsizeParamOutcome::BadPair,
                Err(EffectParseError::DuplicateKey(k)) => spec_usize_param(
                    effect_parameters@,
                    ("num")@,
                ) == UsizeParamOutcome::Duplicate(k@),
                Err(EffectParseError::WrongParameter(k)) => spec_usize_param(
                    effect_parameters@,
                    ("num")@,
                ) == UsizeParamOutcome::Wrong(k@),
                Err(EffectParseError::ParseParameter(k, f)) => spec_usize_param(
                    effect_parameters@,
                    ("num")@,
                ) == UsizeParamOutcome::Unparsable(k@) && f@ == Self::spec_input_format(),
                Err(_) => false,
            },
    {
        match parse_usize_param(effect_parameters, "num", Self::input_format()) {
            Ok(v) => Ok(Self::new(v)),
            Err(e) => Err(e),
        }
    }
}

/// How an effect specification string parses: matches the result of
/// `AreaEffect::from_str` case by case.
pub open spec fn spec_effect_parses_to(s: Seq<char>, r: Result<AreaEffect, EffectParseError>) -> bool {
    let t = remove_ws(s);
    let parts = spec_split(t, ':');
    if parts.len() != 2 {
        r == Err::<AreaEffect, EffectParseError>(EffectParseError::Format)
    } else if parts[0] == ("GoToStart")@ {
        match r {
            Ok(AreaEffect::GoToStart(_)) => parts[1].len() == 0,
            Err(EffectParseError::UnexpectedParameters) => parts[1].len() != 0,
            _ => false,
        }
    } else if parts[0] == ("SkipSelf")@ {
        match spec_u8_param(parts[1], ("times")@) {
            U8ParamOutcome::Value(v) => r == Ok::<AreaEffect, EffectParseError>(
                AreaEffect::SkipSelf(SkipSelf { num_skip: v }),
            ),
            U8ParamOutcome::BadPair => r == Err::<AreaEffect, EffectParseError>(
                EffectParseError::KeyValueFormat,
            ),
            U8ParamOutcome::Duplicate(k) => match r {
                Err(EffectParseError::DuplicateKey(k2)) => k2@ == k,
                _ => false,
            },
            U8ParamOutcome::Wrong(k) => match r {
                Err(EffectParseError::WrongParameter(k2)) => k2@ == k,
                _ => false,
            },
            U8ParamOutcome::Unparsable(k) => match r {
                Err(EffectParseError::ParseParameter(k2, f)) => k2@ == k && f@
                    == SkipSelf::spec_input_format(),
                _ => false,
            },
        }
    } else if parts[0] == ("PushSelf")@ {
        spec_usize_effect_parses_to(parts[1], r, true, false)
    } else if parts[0] == ("PushOthersAll")@ {
        spec_usize_effect_parses_to(parts[1], r, true, true)
    } else if parts[0] == ("PullSelf")@ {
        spec_usize_effect_parses_to(parts[1], r, false, false)
    } else if parts[0] == ("PullOthersAll")@ {
        spec_usize_effect_parses_to(parts[1], r, false, true)
    } else {
        match r {
            Err(EffectParseError::NotFoundAreaType(nm)) => nm@ == parts[0],
            _ => false,
        }
    }
}

/// The shared parse outcome of the four `num = <usize>` effects; `forward`
/// and `others` select which effect kind the value must land in.
pub open spec fn spec_usize_effect_parses_to(
    params: Seq<char>,
    r: Result<AreaEffect, EffectParseError>,
    forward: bool,
    others: bool,
) -> bool {
    match spec_usize_param(params, ("num")@) {
        UsizeParamOutcome::Value(v) => {
            let expected = if forward && others {
                AreaEffect::PushOthersAll(PushOthersAll { num_step: v })
            } else if forward {
                AreaEffect::PushSelf(PushSelf { num_step: v })
            } else if others {
                AreaEffect::PullOthersAll(PullOthersAll { num_step: v })
            } else {
                AreaEffect::PullSelf(PullSelf { num_step: v })
            };
            r == Ok::<AreaEffect, EffectParseError>(expected)
        },
        UsizeParamOutcome::BadPair => r == Err::<AreaEffect, EffectParseError>(
            EffectParseError::KeyValueFormat,
        ),
        UsizeParamOutcome::Duplicate(k) => match r {
            Err(EffectParseError::DuplicateKey(k2)) => k2@ == k,
            _ => false,
        },
        UsizeParamOutcome::Wrong(k) => match r {
            Err(EffectParseError::WrongParameter(k2)) => k2@ == k,
            _ => false,
        },
        UsizeParamOutcome::Unparsable(k) => match r {
            Err(EffectParseError::ParseParameter(k2, f)) => k2@ == k && f@ == (if forward
                && others {
                PushOthersAll::spec_input_format()
            } else if forward {
                PushSelf::spec_input_format()
            } else if others {
                PullOthersAll::spec_input_format()
            } else {
                PullSelf::spec_input_format()
            }),
            _ => false,
        },
    }
}

impl AreaEffect {
    /// Parses an `EffectName: key=value, ...` specification, ignoring all
    /// whitespace, as the board configuration writes effects.
    pub fn from_str(area_effect_str: &str) -> (r: Result<AreaEffect, EffectParseError>)
        ensures
            spec_effect_parses_to(area_effect_str@, r),
    {
        let cleaned = remove_whitespace(area_effect_str);
        let parts = split_char(cleaned.as_str(), ':');
        proof {
            assert(strs_view(parts@).len() == parts@.len());
        }
        if parts.len() != 2 {
            return Err(EffectParseError::Format);
        }
        proof {
            assert(strs_view(parts@)[0] == parts@[0]@);
            assert(strs_view(parts@)[1] == parts@[1]@);
        }
        let name = &parts[0];
        let params = &parts[1];
        if str_eq(name.as_str(), "GoToStart") {
            match GoToStart::from_str(params.as_str()) {
                Ok(e) => Ok(AreaEffect::GoToStart(e)),
                Err(e) => Err(e),
            }
        } else if str_eq(name.as_str(), "SkipSelf") {
            match SkipSelf::from_str(params.as_str()) {
                Ok(e) => Ok(AreaEffect::SkipSelf(e)),
                Err(e) => Err(e),
            }
        } else if str_eq(name.as_str(), "PushSelf") {
            match PushSelf::from_str(params.as_str()) {
                Ok(e) => Ok(AreaEffect::PushSelf(e)),
                Err(e) => Err(e),
            }
        } else if str_eq(name.as_str(), "PushOthersAll") {
            match PushOthersAll::from_str(params.as_str()) {
                Ok(e) => Ok(AreaEffect::PushOthersAll(e)),
                Err(e) => Err(e),
            }
        } else if str_eq(name.as_str(), "PullSelf") {
            match PullSelf::from_str(params.as_str()) {
                Ok(e) => Ok(AreaEffect::PullSelf(e)),
                Err(e) => Err(e),
            }
        } else if str_eq(name.as_str(), "PullOthersAll") {
            match PullOthersAll::from_str(params.as_str()) {
                Ok(e) => Ok(AreaEffect::PullOthersAll(e)),
                Err(e) => Err(e),
            }
        } else {
            Err(EffectParseError::NotFoundAreaType(name.clone()))
        }
    }
}

/// What a forward-or-backward move of every player except `current` does to

/// An effect that does nothing.
#[derive(Clone, Copy, Debug, PartialEq, Eq, Structural)]
pub struct NoEffect {}

/// Sends the landing player back to the start square.
#[derive(Clone, Copy, Debug, PartialEq, Eq, Structural)]
pub struct GoToStart {}

/// Adds pending skips to the landing player.
#[derive(Clone, Copy, Debug, PartialEq, Eq, Structural)]
pub struct SkipSelf {
    pub num_skip: u8,
}

/// Moves the landing player forward.
#[derive(Clone, Copy, Debug, PartialEq, Eq, Structural)]
pub struct PushSelf {
    pub num_step: usize,
}

/// Moves every player but the landing one forward, in roster order.
#[derive(Clone, Copy, Debug, PartialEq, Eq, Structural)]
pub struct PushOthersAll {
    pub num_step: usize,
}

/// Moves the landing player backward.
#[derive(Clone, Copy, Debug, PartialEq, Eq, Structural)]
pub struct PullSelf {
    pub num_step: usize,
}

/// Moves every player but the landing one backward, in roster order.
#[derive(Clone, Copy, Debug, PartialEq, Eq, Structural)]
pub struct PullOthersAll {
    pub num_step: usize,
}

/// The closed set of effects a square can carry.
#[derive(Clone, Copy, Debug, PartialEq, Eq, Structural)]
pub enum AreaEffect {
    NoEffect(NoEffect),
    GoToStart(GoToStart),
    SkipSelf(SkipSelf),
    PushSelf(PushSelf),
    PushOthersAll(PushOthersAll),
    PullSelf(PullSelf),
    PullOthersAll(PullOthersAll),
}

impl NoEffect {
    pub fn new() -> (r: Self)
        ensures
            r == (NoEffect {  }),
    {
        Self {  }
    }

    pub open spec fn spec_effect_text(self, language: Language) -> Seq<char> {
        match language {
            Language::Japanese => ("なし")@,
        }
    }

    pub fn effect_text(&self, preferences: &Preferences) -> (r: String)
        ensures
            r@ == self.spec_effect_text(preferences.language),
    {
        match preferences.language() {
            Language::Japanese => String::from_str("なし"),
        }
    }
}

impl GoToStart {
    fn new() -> (r: Self)
        ensures
            r == (GoToStart {  }),
    {
        Self {  }
    }

    pub open spec fn spec_input_format() -> Seq<char> {
        ("`GoToStart:`")@
    }

    pub fn input_format() -> (r: &'static str)
        ensures
            r@ == Self::spec_input_format(),
    {
        "`GoToStart:`"
    }

    pub open spec fn spec_effect_text(self, language: Language) -> Seq<char> {
        match language {
            Language::Japanese => ("振り出しに戻る。")@,
        }
    }

    pub fn effect_text(&self, preferences: &Preferences) -> (r: String)
        ensures
            r@ == self.spec_effect_text(preferences.language),
    {
        match preferences.language() {
            Language::Japanese => String::from_str("振り出しに戻る。"),
        }
    }
}

impl SkipSelf {
    fn new(num_skip: u8) -> (r: Self)
        ensures
            r == (SkipSelf { num_skip }),
    {
        Self { num_skip }
    }

    pub open spec fn spec_input_format() -> Seq<char> {
        ("`SkipSelf: times = <u8>`")@
    }

    pub fn input_format() -> (r: &'static str)
        ensures
            r@ == Self::spec_input_format(),
    {
        "`SkipSelf: times = <u8>`"
    }

    pub open spec fn spec_effect_text(self, language: Language) -> Seq<char> {
        match language {
            Language::Japanese => ("プレイヤーの休みを")@ + dec_str(self.num_skip as int) + (
            "回追加。")@,
        }
    }

    pub fn effect_text(&self, preferences: &Preferences) -> (r: String)
        ensures
            r@ == self.spec_effect_text(preferences.language),
    {
        match preferences.language() {
            Language::Japanese => {
                let mut s = String::from_str("プレイヤーの休みを");
                let n = usize_to_string(self.num_skip as usize);
                s.append(n.as_str());
                s.append("回追加。");
                s
            },
        }
    }
}

impl PushSelf {
    pub fn new(num_step: usize) -> (r: Self)
        ensures
            r == (PushSelf { num_step }),
    {
        Self { num_step }
    }

    pub open spec fn spec_input_format() -> Seq<char> {
        ("`PushSelf: num = <usize>`")@
    }

    pub fn input_format() -> (r: &'static str)
        ensures
            r@ == Self::spec_input_format(),
    {
        "`PushSelf: num = <usize>`"
    }

    pub open spec fn spec_effect_text(self, language: Language) -> Seq<char> {
        match language {
            Language::Japanese => ("プレイヤーは")@ + dec_str(self.num_step as int) + (
            " マス進む。")@,
        }
    }

    pub fn effect_text(&self, preferences: &Preferences) -> (r: String)
        ensures
            r@ == self.spec_effect_text(preferences.language),
    {
        match preferences.language() {
            Language::Japanese => {
                let mut s = String::from_str("プレイヤーは");
                let n = usize_to_string(self.num_step);
                s.append(n.as_str());
                s.append(" マス進む。");
                s
            },
        }
    }
}

impl PushOthersAll {
    pub fn new(num_step: usize) -> (r: Self)
        ensures
            r == (PushOthersAll { num_step }),
    {
        Self { num_step }
    }

    pub open spec fn spec_input_format() -> Seq<char> {
        ("`PushOthersAll: num = <usize>`")@
    }

    pub fn input_format() -> (r: &'static str)
        ensures
            r@ == Self::spec_input_format(),
    {
        "`PushOthersAll: num = <usize>`"
    }

    pub open spec fn spec_effect_text(self, language: Language) -> Seq<char> {
        match language {
            Language::Japanese => ("自分以外のプレイヤーは")@ + dec_str(self.num_step as int) + (
            " マス進む。")@,
        }
    }

    pub fn effect_text(&self, preferences: &Preferences) -> (r: String)
        ensures
            r@ == self.spec_effect_text(preferences.language),
    {
        match preferences.language() {
            Language::Japanese => {
                let mut s = String::from_str("自分以外のプレイヤーは");
                let n = usize_to_string(self.num_step);
                s.append(n.as_str());
                s.append(" マス進む。");
                s
            },
        }
    }
}

impl PullSelf {
    pub fn new(num_step: usize) -> (r: Self)
        ensures
            r == (PullSelf { num_step }),
    {
        Self { num_step }
    }

    pub open spec fn spec_input_format() -> Seq<char> {
        ("`PullSelf: num = <usize>`")@
    }

    pub fn input_format() -> (r: &'static str)
        ensures
            r@ == Self::spec_input_format(),
    {
        "`PullSelf: num = <usize>`"
    }

    pub open spec fn spec_effect_text(self, language: Language) -> Seq<char> {
        match language {
            Language::Japanese => ("プレイヤーは")@ + dec_str(self.num_step as int) + (
            " マス戻る。")@,
        }
    }

    pub fn effect_text(&self, preferences: &Preferences) -> (r: String)
        ensures
            r@ == self.spec_effect_text(preferences.language),
    {
        match preferences.language() {
            Language::Japanese => {
                let mut s = String::from_str("プレイヤーは");
                let n = usize_to_string(self.num_step);
                s.append(n.as_str());
                s.append(" マス戻る。");
                s
            },
        }
    }
}

impl PullOthersAll {
    pub fn new(num_step: usize) -> (r: Self)
        ensures
            r == (PullOthersAll { num_step }),
    {
        Self { num_step }
    }

    pub open spec fn spec_input_format() -> Seq<char> {
        ("`PullOthersAll: num = <usize>`")@
    }

    pub fn input_format() -> (r: &'static str)
        ensures
            r@ == Self::spec_input_format(),
    {
        "`PullOthersAll: num = <usize>`"
    }

    pub open spec fn spec_effect_text(self, language: Language) -> Seq<char> {
        match language {
            Language::Japanese => ("自分以外のプレイヤーは")@ + dec_str(self.num_step as int) + (
            " マス戻す。")@,
        }
    }

    pub fn effect_text(&self, preferences: &Preferences) -> (r: String)
        ensures
            r@ == self.spec_effect_text(preferences.language),
    {
        match preferences.language() {
            Language::Japanese => {
                let mut s = String::from_str("自分以外のプレイヤーは");
                let n = usize_to_string(self.num_step);
                s.append(n.as_str());
                s.append(" マス戻す。");
                s
            },
        }
    }
}

/// What a forward-or-backward move of every player except `current` does to
/// the statuses, walking `order` front to back: the new statuses, or the
/// first name missing from the table together with the changes already made.
pub open spec fn spec_effect_on_others(
    order: Seq<Seq<char>>,
    current: Seq<char>,
    names: Seq<Seq<char>>,
    sts: Seq<PlayerStatus>,
    num: int,
    forward: bool,
) -> Result<Seq<PlayerStatus>, (Seq<char>, Seq<PlayerStatus>)>
    decreases order.len(),
{
    if order.len() == 0 {
        Ok(sts)
    } else {
        let p = order[0];
        if p == current {
            spec_effect_on_others(order.drop_first(), current, names, sts, num, forward)
        } else {
            let i = first_name_index(names, p);
            if i < 0 || i >= sts.len() {
                Err((p, sts))
            } else {
                let st2 = if forward {
                    sts[i].spec_go_forward(num)
                } else {
                    sts[i].spec_go_backward(num)
                };
                spec_effect_on_others(
                    order.drop_first(),
                    current,
                    names,
                    sts.update(i, st2),
                    num,
                    forward,
                )
            }
        }
    }
}

/// What one effect does to the statuses when `current` lands on its square:
/// the new statuses, or the missing name together with the changes already
/// made (nothing is rolled back).
pub open spec fn spec_apply_effect(
    e: AreaEffect,
    current: Seq<char>,
    order: Seq<Seq<char>>,
    names: Seq<Seq<char>>,
    sts: Seq<PlayerStatus>,
) -> Result<Seq<PlayerStatus>, (Seq<char>, Seq<PlayerStatus>)> {
    match e {
        AreaEffect::NoEffect(_) => Ok(sts),
        AreaEffect::GoToStart(_) => {
            let i = first_name_index(names, current);
            if i < 0 || i >= sts.len() {
                Err((current, sts))
            } else {
                Ok(sts.update(i, (PlayerStatus { position: 0, ..sts[i] })))
            }
        },
        AreaEffect::SkipSelf(eff) => {
            let i = first_name_index(names, current);
            if i < 0 || i >= sts.len() {
                Err((current, sts))
            } else {
                Ok(sts.update(i, sts[i].spec_add_num_skip(eff.num_skip as int)))
            }
        },
        AreaEffect::PushSelf(eff) => {
            let i = first_name_index(names, current);
            if i < 0 || i >= sts.len() {
                Err((current, sts))
            } else {
                Ok(sts.update(i, sts[i].spec_go_forward(eff.num_step as int)))
            }
        },
        AreaEffect::PushOthersAll(eff) => spec_effect_on_others(
            order,
            current,
            names,
            sts,
            eff.num_step as int,
            true,
        ),
        AreaEffect::PullSelf(eff) => {
            let i = first_name_index(names, current);
            if i < 0 || i >= sts.len() {
                Err((current, sts))
            } else {
                Ok(sts.update(i, sts[i].spec_go_backward(eff.num_step as int)))
            }
        },
        AreaEffect::PullOthersAll(eff) => spec_effect_on_others(
            order,
            current,
            names,
            sts,
            eff.num_step as int,
            false,
        ),
    }
}

/// What a whole effect list does, applied in declared order; the first
/// missing name stops execution, and earlier changes remain.
pub open spec fn spec_execute_list(
    effects: Seq<AreaEffect>,
    current: Seq<char>,
    order: Seq<Seq<char>>,
    names: Seq<Seq<char>>,
    sts: Seq<PlayerStatus>,
) -> Result<Seq<PlayerStatus>, (Seq<char>, Seq<PlayerStatus>)>
    decreases effects.len(),
{
    if effects.len() == 0 {
        Ok(sts)
    } else {
        match spec_apply_effect(effects[0], current, order, names, sts) {
            Ok(sts2) => spec_execute_list(effects.drop_first(), current, order, names, sts2),
            Err(e) => Err(e),
        }
    }
}

/// Whether an effect moves only the landing player, never the others.
pub open spec fn effect_self_only(e: AreaEffect) -> bool {
    !(e is PushOthersAll) && !(e is PullOthersAll)
}

pub proof fn lemma_on_others_preserves_flags(
    order: Seq<Seq<char>>,
    current: Seq<char>,
    names: Seq<Seq<char>>,
    sts: Seq<PlayerStatus>,
    num: int,
    forward: bool,
)
    ensures
        match spec_effect_on_others(order, current, names, sts, num, forward) {
            Ok(sts2) => sts2.len() == sts.len() && forall|q: int|
                0 <= q < sts.len() ==> (#[trigger] sts2[q]).order_of_arrival
                    == sts[q].order_of_arrival,
            Err((_, sts2)) => sts2.len() == sts.len() && forall|q: int|
                0 <= q < sts.len() ==> (#[trigger] sts2[q]).order_of_arrival
                    == sts[q].order_of_arrival,
        },
    decreases order.len(),
{
    if order.len() > 0 {
        let p = order[0];
        if p == current {
            lemma_on_others_preserves_flags(order.drop_first(), current, names, sts, num, forward);
        } else {
            let i = first_name_index(names, p);
            if 0 <= i < sts.len() {
                let st2 = if forward {
                    sts[i].spec_go_forward(num)
                } else {
                    sts[i].spec_go_backward(num)
                };
                lemma_on_others_preserves_flags(
                    order.drop_first(),
                    current,
                    names,
                    sts.update(i, st2),
                    num,
                    forward,
                );
            }
        }
    }
}

/// No effect ever changes who has arrived.
pub proof fn lemma_effect_preserves_flags(
    e: AreaEffect,
    current: Seq<char>,
    order: Seq<Seq<char>>,
    names: Seq<Seq<char>>,
    sts: Seq<PlayerStatus>,
)
    ensures
        match spec_apply_effect(e, current, order, names, sts) {
            Ok(sts2) => sts2.len() == sts.len() && forall|q: int|
                0 <= q < sts.len() ==> (#[trigger] sts2[q]).order_of_arrival
                    == sts[q].order_of_arrival,
            Err((_, sts2)) => sts2.len() == sts.len() && forall|q: int|
                0 <= q < sts.len() ==> (#[trigger] sts2[q]).order_of_arrival
                    == sts[q].order_of_arrival,
        },
{
    match e {
        AreaEffect::PushOthersAll(eff) => {
            lemma_on_others_preserves_flags(order, current, names, sts, eff.num_step as int, true);
        },
        AreaEffect::PullOthersAll(eff) => {
            lemma_on_others_preserves_flags(order, current, names, sts, eff.num_step as int, false);
        },
        _ => {},
    }
}

/// A whole effect list never changes who has arrived, whether it runs to
/// completion or stops at a missing name.
pub proof fn lemma_execute_list_preserves_flags(
    effects: Seq<AreaEffect>,
    current: Seq<char>,
    order: Seq<Seq<char>>,
    names: Seq<Seq<char>>,
    sts: Seq<PlayerStatus>,
)
    ensures
        match spec_execute_list(effects, current, order, names, sts) {
            Ok(sts2) => sts2.len() == sts.len() && forall|q: int|
                0 <= q < sts.len() ==> (#[trigger] sts2[q]).order_of_arrival
                    == sts[q].order_of_arrival,
            Err((_, sts2)) => sts2.len() == sts.len() && forall|q: int|
                0 <= q < sts.len() ==> (#[trigger] sts2[q]).order_of_arrival
                    == sts[q].order_of_arrival,
        },
    decreases effects.len(),
{
    if effects.len() > 0 {
        lemma_effect_preserves_flags(effects[0], current, order, names, sts);
        match spec_apply_effect(effects[0], current, order, names, sts) {
            Ok(sts2) => {
                lemma_execute_list_preserves_flags(effects.drop_first(), current, order, names, sts2);
            },
            Err(_) => {},
        }
    }
}

/// Effects that only move the landing player leave everyone else's status
/// untouched when they run to completion.
pub proof fn lemma_execute_list_self_only(
    effects: Seq<AreaEffect>,
    current: Seq<char>,
    order: Seq<Seq<char>>,
    names: Seq<Seq<char>>,
    sts: Seq<PlayerStatus>,
)
    requires
        forall|k: int| 0 <= k < effects.len() ==> effect_self_only(#[trigger] effects[k]),
    ensures
        match spec_execute_list(effects, current, order, names, sts) {
            Ok(sts2) => sts2.len() == sts.len() && forall|q: int|
                0 <= q < sts.len() && q != first_name_index(names, current)
                    ==> #[trigger] sts2[q] == sts[q],
            Err(_) => true,
        },
    decreases effects.len(),
{
    if effects.len() > 0 {
        assert(effect_self_only(effects[0]));
        match spec_apply_effect(effects[0], current, order, names, sts) {
            Ok(sts2) => {
                lemma_execute_list_self_only(effects.drop_first(), current, order, names, sts2);
            },
            Err(_) => {},
        }
    }
}

/// A list of pure no-op effects runs to completion and changes nothing.
pub proof fn lemma_execute_list_noop(
    effects: Seq<AreaEffect>,
    current: Seq<char>,
    order: Seq<Seq<char>>,
    names: Seq<Seq<char>>,
    sts: Seq<PlayerStatus>,
)
    requires
        forall|k: int| 0 <= k < effects.len() ==> #[trigger] effects[k] is NoEffect,
    ensures
        spec_execute_list(effects, current, order, names, sts) == Ok::<
            Seq<PlayerStatus>,
            (Seq<char>, Seq<PlayerStatus>),
        >(sts),
    decreases effects.len(),
{
    if effects.len() > 0 {
        assert(effects[0] is NoEffect);
        lemma_execute_list_noop(effects.drop_first(), current, order, names, sts);
    }
}

impl AreaEffect {
    /// Applies this effect for the player `current_player` who landed on the
    /// square.  The table changes exactly as `spec_apply_effect` says; on a
    /// missing name the error carries that name and everything already moved
    /// stays moved.
    pub fn execute(
        &self,
        current_player: &str,
        player_order: &Vec<String>,
        player_status_table: &mut PlayerStatusTable,
    ) -> (r: Result<(), GameSystemError>)
        requires
            old(player_status_table).wf(),
        ensures
            final(player_status_table).wf(),
            final(player_status_table).names@ == old(player_status_table).names@,
            match spec_apply_effect(
                *self,
                current_player@,
                strs_view(player_order@),
                old(player_status_table).names_view(),
                old(player_status_table).statuses@,
            ) {
                Ok(sts) => r is Ok && final(player_status_table).statuses@ == sts,
                Err((nm, sts)) => {
                    &&& final(player_status_table).statuses@ == sts
                    &&& match r {
                        Err(GameSystemError::NotFoundPlayer(nm2)) => nm2@ == nm,
                        _ => false,
                    }
                },
            },
    {
        match self {
            AreaEffect::NoEffect(_) => Ok(()),
            AreaEffect::GoToStart(_) => {
                match player_status_table.index_of(current_player) {
                    Some(i) => {
                        proof {
                            lemma_first_name_index(
                                player_status_table.names_view(),
                                current_player@,
                            );
                        }
                        let mut st = *player_status_table.status_at(i);
                        st.set_position(0);
                        player_status_table.set_status_at(i, st);
                        Ok(())
                    },
                    None => Err(GameSystemError::NotFoundPlayer(current_player.to_owned())),
                }
            },
            AreaEffect::SkipSelf(eff) => {
                match player_status_table.index_of(current_player) {
                    Some(i) => {
                        proof {
                            lemma_first_name_index(
                                player_status_table.names_view(),
                                current_player@,
                            );
                        }
                        let mut st = *player_status_table.status_at(i);
                        st.add_num_skip(eff.num_skip);
                        player_status_table.set_status_at(i, st);
                        Ok(())
                    },
                    None => Err(GameSystemError::NotFoundPlayer(current_player.to_owned())),
                }
            },
            AreaEffect::PushSelf(eff) => {
                match player_status_table.index_of(current_player) {
                    Some(i) => {
                        proof {
                            lemma_first_name_index(
                                player_status_table.names_view(),
                                current_player@,
                            );
                        }
                        let mut st = *player_status_table.status_at(i);
                        st.go_forward(eff.num_step);
                        player_status_table.set_status_at(i, st);
                        Ok(())
                    },
                    None => Err(GameSystemError::NotFoundPlayer(current_player.to_owned())),
                }
            },
            AreaEffect::PullSelf(eff) => {
                match player_status_table.index_of(current_player) {
                    Some(i) => {
                        proof {
                            lemma_first_name_index(
                                player_status_table.names_view(),
                                current_player@,
                            );
                        }
                        let mut st = *player_status_table.status_at(i);
                        st.go_backward(eff.num_step);
                        player_status_table.set_status_at(i, st);
                        Ok(())
                    },
                    None => Err(GameSystemError::NotFoundPlayer(current_player.to_owned())),
                }
            },
            AreaEffect::PushOthersAll(eff) => {
                move_others(current_player, player_order, player_status_table, eff.num_step, true)
            },
            AreaEffect::PullOthersAll(eff) => {
                move_others(current_player, player_order, player_status_table, eff.num_step, false)
            },
        }
    }
}

/// Moves every player except `current_player` by `num_step`, forward or
/// backward, in roster order.
fn move_others(
    current_player: &str,
    player_order: &Vec<String>,
    player_status_table: &mut PlayerStatusTable,
    num_step: usize,
    forward: bool,
) -> (r: Result<(), GameSystemError>)
    requires
        old(player_status_table).wf(),
    ensures
        final(player_status_table).wf(),
        final(player_status_table).names@ == old(player_status_table).names@,
        match spec_effect_on_others(
            strs_view(player_order@),
            current_player@,
            old(player_status_table).names_view(),
            old(player_status_table).statuses@,
            num_step as int,
            forward,
        ) {
            Ok(sts) => r is Ok && final(player_status_table).statuses@ == sts,
            Err((nm, sts)) => {
                &&& final(player_status_table).statuses@ == sts
                &&& match r {
                    Err(GameSystemError::NotFoundPlayer(nm2)) => nm2@ == nm,
                    _ => false,
                }
            },
        },
{
    let ghost ordv = strs_view(player_order@);
    let ghost names = old(player_status_table).names_view();
    let ghost sts0 = old(player_status_table).statuses@;
    let len = player_order.len();
    let mut j: usize = 0;
    proof {
        assert(ordv.skip(0) =~= ordv);
    }
    while j < len
        invariant
            len == player_order@.len(),
            j <= len,
            ordv == strs_view(player_order@),
            names == old(player_status_table).names_view(),
            sts0 == old(player_status_table).statuses@,
            player_status_table.wf(),
            player_status_table.names@ == old(player_status_table).names@,
            spec_effect_on_others(ordv, current_player@, names, sts0, num_step as int, forward)
                == spec_effect_on_others(
                ordv.skip(j as int),
                current_player@,
                names,
                player_status_table.statuses@,
                num_step as int,
                forward,
            ),
        decreases len - j,
    {
        let player: &String = &player_order[j];
        proof {
            assert(ordv.skip(j as int)[0] == ordv[j as int]);
            assert(ordv[j as int] == player_order@[j as int]@);
            assert(ordv.skip(j as int).drop_first() =~= ordv.skip(j + 1));
            assert(player_status_table.names_view() == names);
        }
        if !str_eq(player.as_str(), current_player) {
            match player_status_table.index_of(player.as_str()) {
                Some(i) => {
                    proof {
                        lemma_first_name_index(names, player@);
                    }
                    let mut st = *player_status_table.status_at(i);
                    if forward {
                        st.go_forward(num_step);
                    } else {
                        st.go_backward(num_step);
                    }
                    player_status_table.set_status_at(i, st);
                },
                None => {
                    proof {
                        lemma_first_name_index(names, player@);
                    }
                    return Err(GameSystemError::NotFoundPlayer(player.clone()));
                },
            }
        }
        j = j + 1;
    }
    proof {
        assert(ordv.skip(len as int) =~= Seq::<Seq<char>>::empty());
    }
    Ok(())
}

impl AreaEffect {
    /// The locale-dependent sentence describing this effect.
    pub open spec fn spec_effect_text(self, language: Language) -> Seq<char> {
        match self {
            AreaEffect::NoEffect(e) => e.spec_effect_text(language),
            AreaEffect::GoToStart(e) => e.spec_effect_text(language),
            AreaEffect::SkipSelf(e) => e.spec_effect_text(language),
            AreaEffect::PushSelf(e) => e.spec_effect_text(language),
            AreaEffect::PushOthersAll(e) => e.spec_effect_text(language),
            AreaEffect::PullSelf(e) => e.spec_effect_text(language),
            AreaEffect::PullOthersAll(e) => e.spec_effect_text(language),
        }
    }

    pub fn effect_text(&self, preferences: &Preferences) -> (r: String)
        ensures
            r@ == self.spec_effect_text(preferences.language),
    {
        match self {
            AreaEffect::NoEffect(e) => e.effect_text(preferences),
            AreaEffect::GoToStart(e) => e.effect_text(preferences),
            AreaEffect::SkipSelf(e) => e.effect_text(preferences),
            AreaEffect::PushSelf(e) => e.effect_text(preferences),
            AreaEffect::PushOthersAll(e) => e.effect_text(preferences),
            AreaEffect::PullSelf(e) => e.effect_text(preferences),
            AreaEffect::PullOthersAll(e) => e.effect_text(preferences),
        }
    }

    /// Whether triggering the effect needs further user input; no current
    /// effect kind does.
    pub fn need_argument(&self) -> (r: bool)
        ensures
            r == false,
    {
        false
    }
}

/// One board square: its narrative text and the effects it triggers, in
/// declared order.
#[derive(Clone, Debug)]
pub struct Area {
    pub description: String,
    pub effect_list: Vec<AreaEffect>,
}

/// The bullet list of effect sentences, one line per effect.
pub open spec fn spec_effects_text(effects: Seq<AreaEffect>, language: Language) -> Seq<char>
    decreases effects.len(),
{
    if effects.len() == 0 {
        Seq::empty()
    } else {
        spec_effects_text(effects.drop_last(), language) + ("- ")@
            + effects.last().spec_effect_text(language) + ("\n")@
    }
}

impl Area {
    pub fn new(description: String, effect_list: Vec<AreaEffect>) -> (r: Self)
        ensures
            r.description == description,
            r.effect_list == effect_list,
    {
        Self { description, effect_list }
    }

    /// The square's narrative text, a blank line, a locale-specific heading,
    /// and one bullet per effect.
    pub open spec fn spec_description(self, language: Language) -> Seq<char> {
        self.description@ + ("\n\n")@ + (match language {
            Language::Japanese => ("効果\n")@,
        }) + spec_effects_text(self.effect_list@, language)
    }

    pub fn area_description(&self, preferences: &Preferences) -> (r: String)
        ensures
            r@ == self.spec_description(preferences.language),
    {
        let ghost language = preferences.language;
        let mut text = self.description.clone();
        text.append("\n\n");
        match preferences.language() {
            Language::Japanese => text.append("効果\n"),
        }
        let ghost head = text@;
        let len = self.effect_list.len();
        let mut j: usize = 0;
        while j < len
            invariant
                len == self.effect_list@.len(),
                j <= len,
                language == preferences.language,
                head == self.description@ + ("\n\n")@ + (match language {
                    Language::Japanese => ("効果\n")@,
                }),
                text@ == head + spec_effects_text(self.effect_list@.take(j as int), language),
            decreases len - j,
        {
            let et = self.effect_list[j].effect_text(preferences);
            text.append("- ");
            text.append(et.as_str());
            text.append("\n");
            proof {
                assert(self.effect_list@.take(j + 1).drop_last() =~= self.effect_list@.take(
                    j as int,
                ));
                assert(self.effect_list@.take(j + 1).last() == self.effect_list@[j as int]);
            }
            j = j + 1;
        }
        proof {
            assert(self.effect_list@.take(len as int) =~= self.effect_list@);
        }
        text
    }

    /// Applies every effect of the square in declared order for the landing
    /// player; the first missing name aborts the rest, and what earlier
    /// effects did is not undone.
    pub fn execute(
        &self,
        current_player: &str,
        player_order: &Vec<String>,
        player_status_table: &mut PlayerStatusTable,
    ) -> (r: Result<(), GameSystemError>)
        requires
            old(player_status_table).wf(),
        ensures
            final(player_status_table).wf(),
            final(player_status_table).names@ == old(player_status_table).names@,
            match spec_execute_list(
                self.effect_list@,
                current_player@,
                strs_view(player_order@),
                old(player_status_table).names_view(),
                old(player_status_table).statuses@,
            ) {
                Ok(sts) => r is Ok && final(player_status_table).statuses@ == sts,
                Err((nm, sts)) => {
                    &&& final(player_status_table).statuses@ == sts
                    &&& match r {
                        Err(GameSystemError::NotFoundPlayer(nm2)) => nm2@ == nm,
                        _ => false,
                    }
                },
            },
    {
        let ghost effects = self.effect_list@;
        let ghost ordv = strs_view(player_order@);
        let ghost names = old(player_status_table).names_view();
        let ghost sts0 = old(player_status_table).statuses@;
        let len = self.effect_list.len();
        let mut j: usize = 0;
        proof {
            assert(effects.skip(0) =~= effects);
        }
        while j < len
            invariant
                len == effects.len(),
                j <= len,
                effects == self.effect_list@,
                ordv == strs_view(player_order@),
                names == old(player_status_table).names_view(),
                sts0 == old(player_status_table).statuses@,
                player_status_table.wf(),
                player_status_table.names@ == old(player_status_table).names@,
                spec_execute_list(effects, current_player@, ordv, names, sts0)
                    == spec_execute_list(
                    effects.skip(j as int),
                    current_player@,
                    ordv,
                    names,
                    player_status_table.statuses@,
                ),
            decreases len - j,
        {
            proof {
                assert(effects.skip(j as int)[0] == effects[j as int]);
                assert(effects.skip(j as int).drop_first() =~= effects.skip(j + 1));
                assert(player_status_table.names_view() == names);
            }
            let eff = self.effect_list[j];
            match eff.execute(current_player, player_order, player_status_table) {
                Ok(()) => {},
                Err(e) => {
                    return Err(e);
                },
            }
            j = j + 1;
        }
        proof {
            assert(effects.skip(len as int) =~= Seq::<AreaEffect>::empty());
        }
        Ok(())
    }
}

} // verus!
