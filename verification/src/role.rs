//! The closed vocabulary of per-field role annotations controlling how a
//! field participates in dependency and ordering analysis.

use vstd::prelude::*;
use vstd::string::StrSliceExecFns;
use vstd::string::StringExecFns;

use crate::token::digits_value;
use crate::token::is_digit;
use crate::token::lemma_digits_value_mono;

verus! {

/// The role a textual annotation denotes: one of the five role names, or
/// `order(N)` with a decimal literal N that fits the order domain; any
/// other text is a malformed annotation.
pub open spec fn spec_parse_param(s: Seq<char>) -> Option<DefinitionParam> {
    if s == "entity"@ {
        Some(DefinitionParam::Entity)
    } else if s == "no_entity"@ {
        Some(DefinitionParam::NoEntity)
    } else if s == "variable"@ {
        Some(DefinitionParam::Variable)
    } else if s == "sequence"@ {
        Some(DefinitionParam::Sequence)
    } else if s == "map"@ {
        Some(DefinitionParam::Mapping)
    } else if s.len() >= 8 && s.subrange(0, 6) == "order("@ && s.last() == ')' && (forall|m: int|
        6 <= m < s.len() - 1 ==> is_digit(#[trigger] s[m])) && digits_value(
        s.subrange(6, s.len() - 1),
    ) <= usize::MAX {
        Some(DefinitionParam::Order(digits_value(s.subrange(6, s.len() - 1)) as usize))
    } else {
        None
    }
}

/// One field role, fixed at schema-authoring time. `Expression` is the
/// implicit role when no annotation is present.
#[derive(Clone, Copy, Debug, PartialEq, Eq, Structural)]
pub enum DefinitionParam {
    /// The field holds an index into the external entity table.
    Entity,
    /// The field never denotes or contains an entity.
    NoEntity,
    /// The field holds a reference whose bound definition is recursed into.
    Variable,
    /// The field holds an ordered collection of sub-definitions.
    Sequence,
    /// The field holds a keyed collection of sub-definitions.
    Mapping,
    /// The default role: the field's own definition is recursed into.
    Expression,
    /// The field supplies an explicit literal order value.
    Order(usize),
}

impl DefinitionParam {
    /// Whether this is the Entity role.
    pub fn is_entity(&self) -> (r: bool)
        ensures
            r == (*self is Entity),
    {
        matches!(self, Self::Entity)
    }

    /// Parses a textual role annotation; a malformed annotation (an unknown
    /// role name, or an `order` form without a well-formed literal) is a
    /// build-time fatal error and yields nothing.
    #[verifier::loop_isolation(false)]
    pub fn parse(s: &str) -> (r: Option<DefinitionParam>)
        ensures
            r == spec_parse_param(s@),
    {
        if s.to_owned() == String::from_str("entity") {
            return Some(DefinitionParam::Entity);
        }
        if s.to_owned() == String::from_str("no_entity") {
            return Some(DefinitionParam::NoEntity);
        }
        if s.to_owned() == String::from_str("variable") {
            return Some(DefinitionParam::Variable);
        }
        if s.to_owned() == String::from_str("sequence") {
            return Some(DefinitionParam::Sequence);
        }
        if s.to_owned() == String::from_str("map") {
            return Some(DefinitionParam::Mapping);
        }
        let n = s.unicode_len();
        if n < 8 {
            return None;
        }
        proof {
            reveal_strlit("order(");
        }
        if !(s.get_char(0) == 'o' && s.get_char(1) == 'r' && s.get_char(2) == 'd' && s.get_char(3)
            == 'e' && s.get_char(4) == 'r' && s.get_char(5) == '(') {
            proof {
                let pre = s@.subrange(0, 6);
                assert(forall|k: int| 0 <= k < 6 ==> pre[k] == s@[k]);
                assert("order("@ =~= seq!['o', 'r', 'd', 'e', 'r', '(']);
                assert(pre != "order("@);
            }
            return None;
        }
        proof {
            assert(s@.subrange(0, 6) =~= "order("@);
        }
        if s.get_char(n - 1) != ')' {
            return None;
        }
        let mut val: usize = 0;
        let mut i: usize = 6;
        while i < n - 1
            invariant
                6 <= i <= n - 1,
                forall|m: int| 6 <= m < i ==> is_digit(#[trigger] s@[m]),
                val == digits_value(s@.subrange(6, i as int)),
            decreases n - 1 - i,
        {
            let c = s.get_char(i);
            let u = c as u32;
            if !(48 <= u && u <= 57) {
                return None;
            }
            let d = (u - 48) as usize;
            proof {
                assert(s@.subrange(6, i + 1).drop_last() =~= s@.subrange(6, i as int));
                assert(s@.subrange(6, i + 1).last() == s@[i as int]);
            }
            if val > (usize::MAX - d) / 10 {
                proof {
                    if forall|m: int| 6 <= m < s@.len() - 1 ==> is_digit(#[trigger] s@[m]) {
                        assert(digits_value(s@.subrange(6, i + 1)) > usize::MAX);
                        lemma_digits_value_mono(s@, 6, i + 1, s@.len() - 1);
                    }
                }
                return None;
            }
            val = val * 10 + d;
            i += 1;
        }
        proof {
            assert(s@.subrange(6, s@.len() - 1) == s@.subrange(6, i as int));
        }
        Some(DefinitionParam::Order(val))
    }

    /// The role of a field given its optional annotation: the implicit
    /// Expression role when no annotation is present, else whatever the
    /// annotation parses to.
    pub fn from_annotation(a: Option<&str>) -> (r: Option<DefinitionParam>)
        ensures
            r == match a {
                None => Some(DefinitionParam::Expression),
                Some(s) => spec_parse_param(s@),
            },
    {
        match a {
            None => Some(DefinitionParam::Expression),
            Some(s) => DefinitionParam::parse(s),
        }
    }
}

} // verus!
