//! The publication lease that the instances of a plugin share through a state
//! file and a lock marker next to it.
//!
//! An instance publishes only while the state file holds what the instance saw
//! there the last time, and it leaves a token of its own behind. A publication
//! of another instance changes the file, so whoever published before has to
//! wait again.
//!
//! The lease does no I/O. It says what to do next, and is told how that went.
use crate::text::{
    chars_of, decimal, is_digit, is_whitespace, lemma_decimal, lemma_find_is,
    lemma_parse_decimal_of_decimal, lemma_trim_padded, parse_decimal, push_decimal, read_decimal,
    read_u64, split_at_char, split_once, trim, trim_whitespace,
};
use crate::text_laws::{is_blank, law_split_once, law_trim};
use crate::time::Duration;
use crate::widget::SinkAction;
use vstd::prelude::*;

verus! {

/// The extension that the lock marker has in place of that of the state file.
pub const LOCK_EXTENSION: &'static str = "lock";

/// What the name of the file has at its end under which a new state is written
/// before it replaces the old one.
pub const TEMPORARY_SUFFIX: &'static str = ".next";

/// A path of the host.
#[verifier::external_type_specification]
#[verifier::external_body]
pub struct ExPathBuf(std::path::PathBuf);

/// What a publication leaves in the state file.
#[derive(Debug, Clone, Copy, PartialEq, Eq, Structural)]
pub struct PublicationToken {
    pub instance_nonce: u128,
    pub generation: u64,
}

/// The text of a token: both numbers in decimal, with a colon between them.
pub open spec fn token_text(token: PublicationToken) -> Seq<char> {
    decimal(token.instance_nonce as nat) + seq![':'] + decimal(token.generation as nat)
}

/// The token that a text spells. Whitespace around it does not count.
pub open spec fn parse_token(text: Seq<char>) -> Option<PublicationToken> {
    match split_once(trim(text), ':') {
        Some((nonce, generation)) => {
            let nonce = parse_decimal(nonce, u128::MAX as nat);
            let generation = parse_decimal(generation, u64::MAX as nat);
            if nonce is Some && generation is Some {
                Some(
                    PublicationToken {
                        instance_nonce: nonce->0 as u128,
                        generation: generation->0 as u64,
                    },
                )
            } else {
                None
            }
        },
        None => None,
    }
}

impl PublicationToken {
    pub fn parse(value: &str) -> (token: Option<PublicationToken>)
        ensures
            token == parse_token(value@),
    {
        let chars = chars_of(value);
        let (nonce, generation) = split_at_char(trim_whitespace(chars.as_slice()), ':')?;
        let instance_nonce: u128 = read_decimal(nonce, u128::MAX)?;
        let generation: u64 = read_u64(generation)?;
        Some(PublicationToken { instance_nonce, generation })
    }

    pub fn encode(self) -> (text: String)
        ensures
            text@ == token_text(self),
    {
        let mut text = String::new();
        push_decimal(&mut text, self.instance_nonce);
        text.push(':');
        push_decimal(&mut text, self.generation as u128);
        assert(text@ =~= token_text(self));
        text
    }
}

/// A token that was written is read back.
pub proof fn law_token_round_trip(token: PublicationToken)
    ensures
        parse_token(token_text(token)) == Some(token),
{
    let nonce = decimal(token.instance_nonce as nat);
    let generation = decimal(token.generation as nat);
    let text = token_text(token);
    lemma_decimal(token.instance_nonce as nat);
    lemma_decimal(token.generation as nat);
    assert(is_digit(nonce[0]) && text[0] == nonce[0]);
    assert(is_digit(generation[generation.len() - 1]) && text.last() == generation[generation.len()
        - 1]);
    assert(trim(text) == text);
    assert forall|i: int| 0 <= i < nonce.len() implies text[i] != ':' by {
        assert(text[i] == nonce[i] && is_digit(nonce[i]));
    }
    lemma_find_is(text, ':', nonce.len() as int);
    assert(text.take(nonce.len() as int) =~= nonce);
    assert(text.skip(nonce.len() as int + 1) =~= generation);
    lemma_parse_decimal_of_decimal(token.instance_nonce as nat, u128::MAX as nat);
    lemma_parse_decimal_of_decimal(token.generation as nat, u64::MAX as nat);
}

/// A token that was written is read back though whitespace stands around it,
/// such as the line feed that an editor adds.
pub proof fn law_padded_token_round_trip(
    token: PublicationToken,
    before: Seq<char>,
    after: Seq<char>,
)
    requires
        forall|i: int| 0 <= i < before.len() ==> is_whitespace(#[trigger] before[i]),
        forall|i: int| 0 <= i < after.len() ==> is_whitespace(#[trigger] after[i]),
    ensures
        parse_token(before + token_text(token) + after) == Some(token),
{
    let nonce = decimal(token.instance_nonce as nat);
    let generation = decimal(token.generation as nat);
    let text = token_text(token);
    lemma_decimal(token.instance_nonce as nat);
    lemma_decimal(token.generation as nat);
    assert(is_digit(nonce[0]) && text[0] == nonce[0]);
    assert(is_digit(generation[generation.len() - 1]) && text.last() == generation[generation.len()
        - 1]);
    lemma_trim_padded(before, text, after);
    lemma_trim_padded(seq![], text, seq![]);
    assert(seq![] + text + seq![] =~= text);
    law_token_round_trip(token);
}

/// What an instance knows of the state file.
#[derive(Debug, Clone, Copy, PartialEq, Eq, Structural)]
pub enum ObservedPublication {
    /// Nothing.
    Unobserved,
    /// It was not there.
    Missing,
    /// It held this token.
    Token(PublicationToken),
}

/// How the attempt to create the lock marker went.
#[derive(Debug, Clone, Copy, PartialEq, Eq, Structural)]
pub enum LockAttempt {
    Created,
    AlreadyExists,
    Failed,
}

/// How the attempt to read the state file went.
#[derive(Debug)]
pub enum StateRead {
    Contents(String),
    NotFound,
    Failed,
}

/// What an attempt to read the state file gives.
pub enum ReadModel {
    Contents(Seq<char>),
    NotFound,
    Failed,
}

impl View for StateRead {
    type V = ReadModel;

    open spec fn view(&self) -> ReadModel {
        match self {
            StateRead::Contents(text) => ReadModel::Contents(text@),
            StateRead::NotFound => ReadModel::NotFound,
            StateRead::Failed => ReadModel::Failed,
        }
    }
}

/// What to do after the attempt to create the lock marker.
#[derive(Debug, Clone, Copy, PartialEq, Eq, Structural)]
pub enum LockStep {
    /// Read the state file.
    ReadState,
    /// The marker was abandoned: write this token to the state file.
    Recover(PublicationToken),
    /// Nothing: this is the answer.
    Answer(SinkAction),
}

/// What to do after the attempt to read the state file.
#[derive(Debug, Clone, Copy, PartialEq, Eq, Structural)]
pub enum StateStep {
    /// Publish, then write this token to the state file.
    Publish(PublicationToken),
    /// Write this token to the state file, which holds none.
    Repair(PublicationToken),
    /// Nothing more: remove the lock marker and give this answer.
    Release(SinkAction),
}

/// How a call ends.
#[derive(Debug, Clone, Copy, PartialEq, Eq, Structural)]
pub struct LeaseEnd {
    /// Whether to remove the lock marker. A marker that is left is found, and
    /// recovered from, by the next call.
    pub remove_lock: bool,
    pub answer: SinkAction,
}

/// The publication right that passes between the instances of one plugin.
///
/// The calls for one state file must not overlap: the host runs every callback
/// and every replacement of a plugin on one thread, in order. A lock marker
/// that is there already was therefore abandoned by a call that has ended.
pub struct SharedPublicationLease {
    interval: Duration,
    instance_nonce: u128,
    next_generation: u64,
    observed_publication: ObservedPublication,
    state_path: std::path::PathBuf,
}

/// The state of a lease.
pub struct LeaseModel {
    pub interval: Duration,
    pub instance_nonce: u128,
    /// The generation of the last token, modulo 2^64.
    pub generation: u64,
    pub observed: ObservedPublication,
}

impl View for SharedPublicationLease {
    type V = LeaseModel;

    closed spec fn view(&self) -> LeaseModel {
        LeaseModel {
            interval: self.interval,
            instance_nonce: self.instance_nonce,
            generation: self.next_generation,
            observed: self.observed_publication,
        }
    }
}

/// What a read of the state file shows: a token, that it is not there, or
/// neither.
pub open spec fn shown(read: ReadModel) -> Option<ObservedPublication> {
    match read {
        ReadModel::Contents(text) => match parse_token(text) {
            Some(token) => Some(ObservedPublication::Token(token)),
            None => None,
        },
        ReadModel::NotFound => Some(ObservedPublication::Missing),
        ReadModel::Failed => None,
    }
}

impl LeaseModel {
    pub open spec fn new(interval: Duration, instance_nonce: u128) -> LeaseModel {
        LeaseModel {
            interval,
            instance_nonce,
            generation: 0,
            observed: ObservedPublication::Unobserved,
        }
    }

    /// With the next token drawn.
    pub open spec fn advanced(self) -> LeaseModel {
        LeaseModel {
            generation: if self.generation == u64::MAX {
                0
            } else {
                (self.generation + 1) as u64
            },
            ..self
        }
    }

    /// The token that was drawn last.
    pub open spec fn token(self) -> PublicationToken {
        PublicationToken { instance_nonce: self.instance_nonce, generation: self.generation }
    }

    pub open spec fn retry(self) -> SinkAction {
        SinkAction::Retry(self.interval)
    }

    /// Knowing what the state file shows.
    pub open spec fn having_seen(self, seen: ObservedPublication) -> LeaseModel {
        LeaseModel { observed: seen, ..self }
    }

    pub open spec fn locked(self, attempt: LockAttempt) -> (LeaseModel, LockStep) {
        match attempt {
            LockAttempt::Created => (self, LockStep::ReadState),
            LockAttempt::AlreadyExists => (
                self.advanced(),
                LockStep::Recover(self.advanced().token()),
            ),
            LockAttempt::Failed => (self, LockStep::Answer(self.retry())),
        }
    }

    pub open spec fn read(self, read: ReadModel) -> (LeaseModel, StateStep) {
        match shown(read) {
            Some(seen) => if seen == self.observed {
                (self.advanced(), StateStep::Publish(self.advanced().token()))
            } else {
                (self.having_seen(seen), StateStep::Release(self.retry()))
            },
            None => if read is Contents {
                (self.advanced(), StateStep::Repair(self.advanced().token()))
            } else {
                (self, StateStep::Release(self.retry()))
            },
        }
    }

    /// After the attempt to write the token that was drawn last.
    pub open spec fn written(self, written: bool) -> LeaseModel {
        if written {
            self.having_seen(ObservedPublication::Token(self.token()))
        } else {
            self
        }
    }
}

impl SharedPublicationLease {
    /// The path of the state file.
    pub closed spec fn path(&self) -> std::path::PathBuf {
        self.state_path
    }

    pub fn new(
        interval: Duration,
        state_path: std::path::PathBuf,
        instance_nonce: u128,
    ) -> (lease: SharedPublicationLease)
        requires
            interval@ > 0,
        ensures
            lease@ == LeaseModel::new(interval, instance_nonce),
            lease.path() == state_path,
    {
        SharedPublicationLease {
            interval,
            instance_nonce,
            next_generation: 0,
            observed_publication: ObservedPublication::Unobserved,
            state_path,
        }
    }

    pub fn state_path(&self) -> (path: &std::path::PathBuf)
        ensures
            *path == self.path(),
    {
        &self.state_path
    }

    /// A call starts with the attempt to create the lock marker.
    pub fn on_lock(&mut self, attempt: LockAttempt) -> (step: LockStep)
        ensures
            (final(self)@, step) == old(self)@.locked(attempt),
            final(self).path() == old(self).path(),
    {
        match attempt {
            LockAttempt::Created => LockStep::ReadState,
            LockAttempt::AlreadyExists => LockStep::Recover(self.next_token()),
            LockAttempt::Failed => LockStep::Answer(SinkAction::Retry(self.interval)),
        }
    }

    /// Ends a call that found an abandoned lock marker. It goes only once the
    /// state file holds a token of this instance.
    pub fn recover_abandoned_lock(&mut self, written: bool) -> (end: LeaseEnd)
        ensures
            final(self)@ == old(self)@.written(written),
            final(self).path() == old(self).path(),
            end.remove_lock == written,
            end.answer == old(self)@.retry(),
    {
        self.record(written);
        LeaseEnd { remove_lock: written, answer: SinkAction::Retry(self.interval) }
    }

    /// Decides what to do about what the state file shows.
    pub fn on_state(&mut self, read: StateRead) -> (step: StateStep)
        ensures
            (final(self)@, step) == old(self)@.read(read@),
            final(self).path() == old(self).path(),
    {
        let seen = match read {
            StateRead::Contents(text) => match PublicationToken::parse(text.as_str()) {
                Some(token) => ObservedPublication::Token(token),
                None => return StateStep::Repair(self.next_token()),
            },
            StateRead::NotFound => ObservedPublication::Missing,
            StateRead::Failed => return StateStep::Release(SinkAction::Retry(self.interval)),
        };
        if self.observed_publication != seen {
            self.observed_publication = seen;
            return StateStep::Release(SinkAction::Retry(self.interval));
        }
        StateStep::Publish(self.next_token())
    }

    /// Ends a call that found a state file without a token.
    pub fn repair_state(&mut self, written: bool) -> (end: LeaseEnd)
        ensures
            final(self)@ == old(self)@.written(written),
            final(self).path() == old(self).path(),
            end.remove_lock == written,
            end.answer == old(self)@.retry(),
    {
        self.record(written);
        LeaseEnd { remove_lock: written, answer: SinkAction::Retry(self.interval) }
    }

    /// Ends a call that published.
    pub fn finish_publication(&mut self, written: bool) -> (end: LeaseEnd)
        ensures
            final(self)@ == old(self)@.written(written),
            final(self).path() == old(self).path(),
            end.remove_lock == written,
            end.answer == SinkAction::Published,
    {
        self.record(written);
        LeaseEnd { remove_lock: written, answer: SinkAction::Published }
    }

    /// Remembers the token that was drawn last, if it was written.
    fn record(&mut self, written: bool)
        ensures
            final(self)@ == old(self)@.written(written),
            final(self).path() == old(self).path(),
    {
        if written {
            self.observed_publication = ObservedPublication::Token(self.last_token());
        }
    }

    fn next_token(&mut self) -> (token: PublicationToken)
        ensures
            final(self)@ == old(self)@.advanced(),
            token == final(self)@.token(),
            final(self).path() == old(self).path(),
    {
        self.next_generation = self.next_generation.wrapping_add(1);
        self.last_token()
    }

    fn last_token(&self) -> (token: PublicationToken)
        ensures
            token == self@.token(),
    {
        PublicationToken {
            instance_nonce: self.instance_nonce,
            generation: self.next_generation,
        }
    }
}

/// A token is two numbers with the first colon between them, in a text without
/// the whitespace around: the nonce of up to 128 bits and the generation of up to
/// 64. What is anything else is no token.
pub proof fn law_parse_token(
    before: Seq<char>,
    nonce: Seq<char>,
    generation: Seq<char>,
    after: Seq<char>,
    token: PublicationToken,
)
    requires
        is_blank(before),
        is_blank(after),
        !nonce.contains(':'),
        nonce.len() > 0 && !is_whitespace(nonce[0]),
        generation.len() > 0 && !is_whitespace(generation.last()),
    ensures
        parse_token(before + (nonce + seq![':'] + generation) + after) == Some(token) <==> {
            &&& parse_decimal(nonce, u128::MAX as nat) == Some(token.instance_nonce as nat)
            &&& parse_decimal(generation, u64::MAX as nat) == Some(token.generation as nat)
        },
        parse_token(before + nonce + after) is Some ==> is_whitespace(nonce.last()),
{
    let text = nonce + seq![':'] + generation;
    law_trim(before, text, after);
    law_split_once(nonce, ':', generation);
    if !is_whitespace(nonce.last()) {
        law_trim(before, nonce, after);
    }
}

} // verus!
