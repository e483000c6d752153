//! The worker's side of the protocol.
//!
//! A worker holds at most one individual. The caller reads an order off the
//! connection, hands it to `handle`, and writes back the reply if there is
//! one.

use crate::evolution::engine::Evolvable;
use crate::fitness::Fitness;
use crate::wire::{Command, Reply, WireError};
use vstd::prelude::*;

verus! {

/// What the master asked of a worker.
pub enum Order<T> {
    /// Make a fresh individual and report it.
    Start,
    /// Mutate and train the individual held, and report its score.
    Train,
    /// Report the individual held.
    Get,
    /// Hold this from now on: an individual, or nothing.
    Put(Option<T>),
    /// A `Put` whose individual could not be decoded.
    Garbled,
}

impl<T> Order<T> {
    /// Reads an order off the wire: the opcode in `opcode` says which, and
    /// the individual of a `Put` is what `decode` makes of the bytes that
    /// follow the opcode, or nothing if it can make nothing of them. `decode`
    /// is asked for no other order. Bytes that are no opcode are no order.
    pub fn read<Fdecode>(opcode: &[u8], decode: &mut Fdecode) -> (order: Result<
        Order<T>,
        WireError,
    >) where Fdecode: FnMut() -> Option<Option<T>>
        requires
            call_requires(*old(decode), ()),
        ensures
            match Command::parse(opcode@) {
                Err(error) => order == Err::<Order<T>, WireError>(error),
                Ok(Command::Start) => order == Ok::<Order<T>, WireError>(Order::Start),
                Ok(Command::Train) => order == Ok::<Order<T>, WireError>(Order::Train),
                Ok(Command::Get) => order == Ok::<Order<T>, WireError>(Order::Get),
                Ok(Command::Put) => exists|decoded: Option<Option<T>>|
                    {
                        &&& #[trigger] call_ensures(*old(decode), (), decoded)
                        &&& order == Ok::<Order<T>, WireError>(
                            match decoded {
                                Some(slot) => Order::Put(slot),
                                None => Order::Garbled,
                            },
                        )
                    },
            },
            *final(decode) == *old(decode),
    {
        match Command::from_opcode(opcode) {
            Err(error) => Err(error),
            Ok(Command::Start) => Ok(Order::Start),
            Ok(Command::Train) => Ok(Order::Train),
            Ok(Command::Get) => Ok(Order::Get),
            Ok(Command::Put) => match decode() {
                Some(slot) => Ok(Order::Put(slot)),
                None => Ok(Order::Garbled),
            },
        }
    }
}

/// Why a worker gives up.
#[derive(Clone, Copy, Debug, PartialEq, Eq, Structural)]
pub enum WorkerError {
    /// The master asked to train before it asked to start: there is nothing
    /// to train.
    NotInitialized,
}

/// A worker: the slot for its current individual.
pub struct Worker<T> {
    pub current: Option<T>,
}

impl<T: Evolvable> Worker<T> {
    /// A worker that holds nothing yet.
    pub fn new() -> (worker: Self)
        ensures
            worker.current is None,
    {
        Worker { current: None }
    }

    /// Answers `Start`: holds what `init` makes, and reports its score and
    /// its encoding.
    pub fn start<Finit, Fencode>(&mut self, init: &Finit, encode: &Fencode) -> (reply: Reply) where
        Finit: Fn() -> (T, Fitness),
        Fencode: Fn(&T) -> Vec<u8>,

        requires
            call_requires(*init, ()),
            forall|individual: T| call_requires(*encode, (&individual,)),
        ensures
            ({
                &&& final(self).current matches Some(individual)
                &&& reply matches Reply::Started { fitness, individual: Some(payload) }
                &&& call_ensures(*init, (), (individual, fitness))
                &&& call_ensures(*encode, (&individual,), payload)
            }),
    {
        let (individual, fitness) = init();
        let payload = encode(&individual);
        self.current = Some(individual);
        Reply::Started { fitness, individual: Some(payload) }
    }

    /// Answers `Train`: mutates the individual held, hands it to `train`,
    /// holds what `train` gives back and reports the score that comes with
    /// it. A worker that holds nothing fails and stays as it is.
    pub fn train<Ftrain>(&mut self, train: &Ftrain) -> (reply: Result<Reply, WorkerError>) where
        Ftrain: Fn(T) -> (T, Fitness),

        requires
            forall|individual: T| call_requires(*train, (individual,)),
        ensures
            old(self).current is None ==> reply == Err::<Reply, WorkerError>(
                WorkerError::NotInitialized,
            ) && final(self).current is None,
            old(self).current matches Some(before) ==> ({
                &&& reply matches Ok(Reply::Trained { fitness })
                &&& final(self).current matches Some(after)
                &&& exists|mutated: &mut T|
                    #![trigger call_ensures(T::mutate, (mutated,), ())]
                    {
                        &&& *mutated == before
                        &&& call_ensures(T::mutate, (mutated,), ())
                        &&& call_ensures(*train, (*final(mutated),), (after, fitness))
                    }
            }),
    {
        match self.current.take() {
            None => Err(WorkerError::NotInitialized),
            Some(mut individual) => {
                individual.mutate();
                let (individual, fitness) = train(individual);
                self.current = Some(individual);
                Ok(Reply::Trained { fitness })
            },
        }
    }

    /// Answers `Get`: reports the encoding of the individual held, or that
    /// none is held.
    pub fn get<Fencode>(&self, encode: &Fencode) -> (reply: Reply) where Fencode: Fn(&T) -> Vec<u8>
        requires
            forall|individual: T| call_requires(*encode, (&individual,)),
        ensures
            self.current is None ==> reply == (Reply::Current { individual: None }),
            self.current matches Some(individual) ==> ({
                &&& reply matches Reply::Current { individual: Some(payload) }
                &&& call_ensures(*encode, (&individual,), payload)
            }),
    {
        match &self.current {
            None => Reply::Current { individual: None },
            Some(individual) => {
                let payload = encode(individual);
                Reply::Current { individual: Some(payload) }
            },
        }
    }

    /// Obeys `Put`: holds `slot` from now on.
    pub fn put(&mut self, slot: Option<T>)
        ensures
            final(self).current == slot,
    {
        self.current = slot;
    }

    /// Carries out one order and returns the reply to send, if the order has
    /// one. `Put` and a garbled `Put` have none, and the garbled one changes
    /// nothing; `Train` before any `Start` fails.
    pub fn handle<Finit, Ftrain, Fencode>(
        &mut self,
        order: Order<T>,
        init: &Finit,
        train: &Ftrain,
        encode: &Fencode,
    ) -> (reply: Result<Option<Reply>, WorkerError>) where
        Finit: Fn() -> (T, Fitness),
        Ftrain: Fn(T) -> (T, Fitness),
        Fencode: Fn(&T) -> Vec<u8>,

        requires
            call_requires(*init, ()),
            forall|individual: T| call_requires(*train, (individual,)),
            forall|individual: T| call_requires(*encode, (&individual,)),
        ensures
            order is Start ==> ({
                &&& final(self).current matches Some(individual)
                &&& reply matches Ok(Some(Reply::Started { fitness, individual: Some(payload) }))
                &&& call_ensures(*init, (), (individual, fitness))
                &&& call_ensures(*encode, (&individual,), payload)
            }),
            order is Train && old(self).current is None ==> reply == Err::<
                Option<Reply>,
                WorkerError,
            >(WorkerError::NotInitialized) && final(self).current is None,
            order is Train && old(self).current is Some ==> ({
                &&& reply matches Ok(Some(Reply::Trained { fitness }))
                &&& final(self).current matches Some(after)
                &&& exists|mutated: &mut T|
                    #![trigger call_ensures(T::mutate, (mutated,), ())]
                    {
                        &&& *mutated == old(self).current->0
                        &&& call_ensures(T::mutate, (mutated,), ())
                        &&& call_ensures(*train, (*final(mutated),), (after, fitness))
                    }
            }),
            order is Get ==> final(self).current == old(self).current,
            order is Get && old(self).current is None ==> reply == Ok::<
                Option<Reply>,
                WorkerError,
            >(Some(Reply::Current { individual: None })),
            order is Get && old(self).current is Some ==> ({
                &&& reply matches Ok(Some(Reply::Current { individual: Some(payload) }))
                &&& call_ensures(*encode, (&old(self).current->0,), payload)
            }),
            order matches Order::Put(slot) ==> reply == Ok::<Option<Reply>, WorkerError>(None)
                && final(self).current == slot,
            order is Garbled ==> reply == Ok::<Option<Reply>, WorkerError>(None)
                && final(self).current == old(self).current,
    {
        match order {
            Order::Start => Ok(Some(self.start(init, encode))),
            Order::Train => match self.train(train) {
                Err(error) => Err(error),
                Ok(reply) => Ok(Some(reply)),
            },
            Order::Get => Ok(Some(self.get(encode))),
            Order::Put(slot) => {
                self.put(slot);
                Ok(None)
            },
            Order::Garbled => Ok(None),
        }
    }
}

} // verus!
