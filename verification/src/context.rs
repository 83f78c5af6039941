//! The metadata that travels with a probe command and comes back with its
//! result.
use crate::probe::ProbeToken;
use crate::text::{chars_of, decimal, decimal_string, is_str, parse_decimal, read_decimal, read_u64};
use crate::text::{lemma_parse_decimal_of_decimal, same};
use vstd::prelude::*;

verus! {

/// The entry that marks a command as a probe of this plugin, and its value.
pub const PROBE_CONTEXT_KEY: &'static str = "zj-sysinfo";

pub const PROBE_CONTEXT_VALUE: &'static str = "macos-sysinfo";

/// The entry that holds the nonce of the instance that runs the probe.
pub const PROBE_CONTEXT_NONCE_KEY: &'static str = "instance-nonce";

/// The entry that holds the generation of the probe.
pub const PROBE_CONTEXT_GENERATION_KEY: &'static str = "generation";

/// The map that a list of entries makes. A later entry replaces an earlier one
/// with the same key.
pub open spec fn entries_map(entries: Seq<(String, String)>) -> Map<Seq<char>, Seq<char>>
    decreases entries.len(),
{
    if entries.len() == 0 {
        Map::empty()
    } else {
        entries_map(entries.drop_last()).insert(entries.last().0@, entries.last().1@)
    }
}

/// Whether no key occurs twice.
pub open spec fn keys_distinct(entries: Seq<(String, String)>) -> bool {
    forall|i: int, j: int|
        #![trigger entries[i], entries[j]]
        0 <= i < j < entries.len() ==> entries[i].0@ != entries[j].0@
}

/// A map from strings to strings. Its view is the map between their texts.
#[derive(Debug)]
pub struct ProbeContext {
    entries: Vec<(String, String)>,
}

impl View for ProbeContext {
    type V = Map<Seq<char>, Seq<char>>;

    closed spec fn view(&self) -> Map<Seq<char>, Seq<char>> {
        entries_map(self.entries@)
    }
}

proof fn lemma_entries_map_contains(entries: Seq<(String, String)>, key: Seq<char>)
    ensures
        entries_map(entries).contains_key(key) <==> exists|i: int|
            0 <= i < entries.len() && (#[trigger] entries[i]).0@ == key,
    decreases entries.len(),
{
    if entries.len() > 0 {
        let before = entries.drop_last();
        lemma_entries_map_contains(before, key);
        if entries_map(before).contains_key(key) {
            let i = choose|i: int| 0 <= i < before.len() && (#[trigger] before[i]).0@ == key;
            assert(entries[i].0@ == key);
        }
        if exists|i: int| 0 <= i < entries.len() && (#[trigger] entries[i]).0@ == key {
            let i = choose|i: int| 0 <= i < entries.len() && (#[trigger] entries[i]).0@ == key;
            if i < before.len() {
                assert(before[i].0@ == key);
            }
        }
    }
}

proof fn lemma_entries_map_value(entries: Seq<(String, String)>, i: int)
    requires
        keys_distinct(entries),
        0 <= i < entries.len(),
    ensures
        entries_map(entries).contains_key(entries[i].0@),
        entries_map(entries)[entries[i].0@] == entries[i].1@,
    decreases entries.len(),
{
    let before = entries.drop_last();
    if i < before.len() {
        assert(keys_distinct(before)) by {
            assert forall|a: int, b: int|
                #![trigger before[a], before[b]]
                0 <= a < b < before.len() implies before[a].0@ != before[b].0@ by {
                assert(entries[a] == before[a] && entries[b] == before[b]);
            }
        }
        lemma_entries_map_value(before, i);
        assert(entries[i].0@ != entries[entries.len() - 1].0@);
    }
}

impl ProbeContext {
    #[verifier::type_invariant]
    spec fn unique_keys(self) -> bool {
        keys_distinct(self.entries@)
    }

    pub fn new() -> (context: ProbeContext)
        ensures
            context@ == Map::<Seq<char>, Seq<char>>::empty(),
    {
        ProbeContext { entries: Vec::new() }
    }

    /// All entries, each key once.
    pub fn entries(&self) -> (entries: &Vec<(String, String)>)
        ensures
            entries_map(entries@) == self@,
            keys_distinct(entries@),
    {
        proof {
            use_type_invariant(self);
        }
        &self.entries
    }

    /// The value of a key.
    pub fn get(&self, key: &str) -> (value: Option<&String>)
        ensures
            match value {
                Some(value) => self@.contains_key(key@) && self@[key@] == value@,
                None => !self@.contains_key(key@),
            },
    {
        proof {
            use_type_invariant(self);
            lemma_entries_map_contains(self.entries@, key@);
        }
        let wanted = chars_of(key);
        for i in 0..self.entries.len()
            invariant
                wanted@ == key@,
                keys_distinct(self.entries@),
                self@ == entries_map(self.entries@),
                forall|j: int| 0 <= j < i ==> (#[trigger] self.entries@[j]).0@ != key@,
        {
            if is_str(wanted.as_slice(), self.entries[i].0.as_str()) {
                proof {
                    lemma_entries_map_value(self.entries@, i as int);
                }
                return Some(&self.entries[i].1);
            }
        }
        None
    }

    /// The entries without those of a key.
    fn without(&self, key: &str) -> (rest: Vec<(String, String)>)
        ensures
            entries_map(rest@) == self@.remove(key@),
            keys_distinct(rest@),
            forall|i: int| 0 <= i < rest@.len() ==> (#[trigger] rest@[i]).0@ != key@,
    {
        proof {
            use_type_invariant(self);
        }
        let wanted = chars_of(key);
        let mut rest: Vec<(String, String)> = Vec::new();
        assert(self.entries@.take(0) =~= Seq::<(String, String)>::empty());
        assert(entries_map(rest@) =~= entries_map(self.entries@.take(0)).remove(key@));
        for i in 0..self.entries.len()
            invariant
                wanted@ == key@,
                keys_distinct(self.entries@),
                entries_map(rest@) == entries_map(self.entries@.take(i as int)).remove(key@),
                keys_distinct(rest@),
                forall|j: int| 0 <= j < rest@.len() ==> (#[trigger] rest@[j]).0@ != key@,
                forall|j: int|
                    0 <= j < rest@.len() ==> exists|k: int|
                        0 <= k < i && (#[trigger] rest@[j]).0@ == (
                        #[trigger] self.entries@[k]).0@,
        {
            let ghost before = rest@;
            let ghost entry = self.entries@[i as int];
            assert(self.entries@.take(i + 1).drop_last() =~= self.entries@.take(i as int));
            assert(self.entries@.take(i + 1).last() == entry);
            if !is_str(wanted.as_slice(), self.entries[i].0.as_str()) {
                let copy = (self.entries[i].0.clone(), self.entries[i].1.clone());
                rest.push(copy);
                proof {
                    assert(rest@.drop_last() =~= before);
                    assert forall|a: int, b: int|
                        #![trigger rest@[a], rest@[b]]
                        0 <= a < b < rest@.len() implies rest@[a].0@ != rest@[b].0@ by {
                        assert(rest@[a] == before[a]);
                        if b < before.len() {
                            assert(rest@[b] == before[b]);
                        } else {
                            let k = choose|k: int|
                                0 <= k < i && before[a].0@ == (#[trigger] self.entries@[k]).0@;
                            assert(self.entries@[k].0@ != self.entries@[i as int].0@);
                        }
                    }
                    assert forall|j: int| 0 <= j < rest@.len() implies exists|k: int|
                        0 <= k < i + 1 && (#[trigger] rest@[j]).0@ == (
                        #[trigger] self.entries@[k]).0@ by {
                        if j < before.len() {
                            assert(rest@[j] == before[j]);
                            let k = choose|k: int|
                                0 <= k < i && before[j].0@ == (#[trigger] self.entries@[k]).0@;
                            assert(rest@[j].0@ == self.entries@[k].0@);
                        } else {
                            assert(rest@[j].0@ == self.entries@[i as int].0@);
                        }
                    }
                }
            }
            assert(entries_map(rest@) =~= entries_map(self.entries@.take(i + 1)).remove(key@));
        }
        assert(self.entries@.take(self.entries@.len() as int) =~= self.entries@);
        rest
    }

    /// Sets the value of a key.
    pub fn insert(&mut self, key: String, value: String)
        ensures
            final(self)@ == old(self)@.insert(key@, value@),
    {
        let mut entries = self.without(key.as_str());
        let ghost rest = entries@;
        entries.push((key, value));
        assert(entries@.drop_last() =~= rest);
        assert(entries_map(entries@) =~= self@.insert(key@, value@));
        *self = ProbeContext { entries };
    }

    /// Removes a key.
    pub fn remove(&mut self, key: &str)
        ensures
            final(self)@ == old(self)@.remove(key@),
    {
        let entries = self.without(key);
        *self = ProbeContext { entries };
    }
}

impl Clone for ProbeContext {
    fn clone(&self) -> (copy: ProbeContext)
        ensures
            copy@ == self@,
    {
        proof {
            use_type_invariant(self);
        }
        let mut entries: Vec<(String, String)> = Vec::new();
        for i in 0..self.entries.len()
            invariant
                entries@ == self.entries@.take(i as int),
        {
            entries.push((self.entries[i].0.clone(), self.entries[i].1.clone()));
            assert(entries@ =~= self.entries@.take(i + 1));
        }
        assert(entries@ =~= self.entries@);
        ProbeContext { entries }
    }
}

/// The context that carries a token.
pub open spec fn context_of(token: ProbeToken) -> Map<Seq<char>, Seq<char>> {
    Map::<Seq<char>, Seq<char>>::empty().insert(PROBE_CONTEXT_KEY@, PROBE_CONTEXT_VALUE@).insert(
        PROBE_CONTEXT_NONCE_KEY@,
        decimal(token.instance_nonce as nat),
    ).insert(PROBE_CONTEXT_GENERATION_KEY@, decimal(token.generation as nat))
}

/// The number of at most `max` that a context holds under a key.
pub open spec fn number_at(
    context: Map<Seq<char>, Seq<char>>,
    key: Seq<char>,
    max: nat,
) -> Option<nat> {
    if context.contains_key(key) {
        parse_decimal(context[key], max)
    } else {
        None
    }
}

/// The token that a context carries, if it is that of a probe of this plugin.
pub open spec fn token_in(context: Map<Seq<char>, Seq<char>>) -> Option<ProbeToken> {
    let nonce = number_at(context, PROBE_CONTEXT_NONCE_KEY@, u128::MAX as nat);
    let generation = number_at(context, PROBE_CONTEXT_GENERATION_KEY@, u64::MAX as nat);
    if context.contains_key(PROBE_CONTEXT_KEY@) && context[PROBE_CONTEXT_KEY@]
        == PROBE_CONTEXT_VALUE@ && nonce is Some && generation is Some {
        Some(ProbeToken { instance_nonce: nonce->0 as u128, generation: generation->0 as u64 })
    } else {
        None
    }
}

/// Makes the context for a probe that runs under a token.
pub fn probe_context(token: ProbeToken) -> (context: ProbeContext)
    ensures
        context@ == context_of(token),
{
    let mut context = ProbeContext::new();
    context.insert(PROBE_CONTEXT_KEY.to_string(), PROBE_CONTEXT_VALUE.to_string());
    context.insert(PROBE_CONTEXT_NONCE_KEY.to_string(), decimal_string(token.instance_nonce));
    context.insert(
        PROBE_CONTEXT_GENERATION_KEY.to_string(),
        decimal_string(token.generation as u128),
    );
    context
}

/// Reads the token back from the context of a result. Other commands of the
/// plugin, and those of other plugins, carry none.
pub fn probe_token_from_context(context: &ProbeContext) -> (token: Option<ProbeToken>)
    ensures
        token == token_in(context@),
{
    let kind = context.get(PROBE_CONTEXT_KEY)?;
    if !same(chars_of(kind.as_str()).as_slice(), chars_of(PROBE_CONTEXT_VALUE).as_slice()) {
        return None;
    }
    let nonce = context.get(PROBE_CONTEXT_NONCE_KEY)?;
    let instance_nonce: u128 = read_decimal(chars_of(nonce.as_str()).as_slice(), u128::MAX)?;
    let generation = context.get(PROBE_CONTEXT_GENERATION_KEY)?;
    let generation: u64 = read_u64(chars_of(generation.as_str()).as_slice())?;
    Some(ProbeToken { instance_nonce, generation })
}

/// Every token comes back from the context that carries it.
pub proof fn law_context_round_trip(token: ProbeToken)
    ensures
        token_in(context_of(token)) == Some(token),
{
    reveal_strlit("zj-sysinfo");
    reveal_strlit("macos-sysinfo");
    reveal_strlit("instance-nonce");
    reveal_strlit("generation");
    assert(PROBE_CONTEXT_KEY@[0] != PROBE_CONTEXT_GENERATION_KEY@[0]);
    assert(PROBE_CONTEXT_KEY@.len() != PROBE_CONTEXT_NONCE_KEY@.len());
    assert(PROBE_CONTEXT_GENERATION_KEY@.len() != PROBE_CONTEXT_NONCE_KEY@.len());
    lemma_parse_decimal_of_decimal(token.instance_nonce as nat, u128::MAX as nat);
    lemma_parse_decimal_of_decimal(token.generation as nat, u64::MAX as nat);
}

/// A context without one of its entries carries no token.
pub proof fn law_incomplete_context_is_rejected(
    context: Map<Seq<char>, Seq<char>>,
    key: Seq<char>,
)
    requires
        key == PROBE_CONTEXT_KEY@ || key == PROBE_CONTEXT_NONCE_KEY@ || key
            == PROBE_CONTEXT_GENERATION_KEY@,
    ensures
        token_in(context.remove(key)) is None,
{
}

/// A context carries a token exactly if it is marked as that of a probe of this
/// plugin and spells both numbers, the nonce of up to 128 bits and the
/// generation of up to 64. What else it holds does not matter.
pub proof fn law_token_is_spelled_by_three_entries(
    context: Map<Seq<char>, Seq<char>>,
    kind: Seq<char>,
    nonce: Seq<char>,
    generation: Seq<char>,
    token: ProbeToken,
)
    ensures
        ({
            let full = context.insert(PROBE_CONTEXT_KEY@, kind).insert(
                PROBE_CONTEXT_NONCE_KEY@,
                nonce,
            ).insert(PROBE_CONTEXT_GENERATION_KEY@, generation);
            token_in(full) == Some(token) <==> {
                &&& kind == PROBE_CONTEXT_VALUE@
                &&& parse_decimal(nonce, u128::MAX as nat) == Some(token.instance_nonce as nat)
                &&& parse_decimal(generation, u64::MAX as nat) == Some(token.generation as nat)
            }
        }),
{
    reveal_strlit("zj-sysinfo");
    reveal_strlit("instance-nonce");
    reveal_strlit("generation");
    assert(PROBE_CONTEXT_KEY@[0] != PROBE_CONTEXT_GENERATION_KEY@[0]);
    assert(PROBE_CONTEXT_KEY@.len() != PROBE_CONTEXT_NONCE_KEY@.len());
    assert(PROBE_CONTEXT_GENERATION_KEY@.len() != PROBE_CONTEXT_NONCE_KEY@.len());
}

} // verus!
