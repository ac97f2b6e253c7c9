use vstd::prelude::*;

use crate::digits::{digits_of, NumberDigits};

verus! {

/// The calculator code that triggers key event `name` with no value.
pub open spec fn event_code(name: Seq<char>) -> Seq<char> {
    "(>K:"@ + name + ")"@
}

/// The calculator code that triggers key event `name` with the value `value`.
pub open spec fn event_value_code(name: Seq<char>, value: Seq<char>) -> Seq<char> {
    value + " (>K:"@ + name + ")"@
}

/// The calculator code that triggers key event `name` with `first` and then
/// `second` as its two arguments.
pub open spec fn event_pair_code(name: Seq<char>, first: Seq<char>, second: Seq<char>) -> Seq<char> {
    first + " "@ + second + " (>K:2:"@ + name + ")"@
}

/// Sets key event `event_name`, with an optional index that goes with the value.
#[derive(Debug)]
pub struct EventSet {
    event_name: String,
    event_index: Option<String>,
    index_reversed: bool,
}

impl EventSet {
    pub closed spec fn name(&self) -> Seq<char> {
        self.event_name@
    }

    pub closed spec fn index(&self) -> Option<Seq<char>> {
        match self.event_index {
            Some(i) => Some(i@),
            None => None,
        }
    }

    pub closed spec fn reversed(&self) -> bool {
        self.index_reversed
    }

    pub fn new(event_name: String) -> (res: Self)
        ensures
            res.name() == event_name@,
            res.index() is None,
            !res.reversed(),
    {
        EventSet { event_name, event_index: None, index_reversed: false }
    }

    pub fn new_with_index(event_name: String, event_index: String, index_reversed: bool) -> (res: Self)
        ensures
            res.name() == event_name@,
            res.index() == Some(event_index@),
            res.reversed() == index_reversed,
    {
        EventSet { event_name, event_index: Some(event_index), index_reversed }
    }

    /// The code that sets the event with no value: `(>K:{event_name})`.
    pub fn set_code(&self) -> (res: String)
        ensures
            res@ == event_code(self.name()),
    {
        let mut code = String::from_str("(>K:");
        code.append(self.event_name.as_str());
        code.append(")");
        code
    }

    /// The code that sets the event with `value`, written as text: without an
    /// index, `{value} (>K:{event_name})`; with one, `{value} {index}
    /// (>K:2:{event_name})`, or `{index} {value} (>K:2:{event_name})` when the
    /// index is reversed.
    pub fn set_with_value_code(&self, value: &str) -> (res: String)
        ensures
            res@ == match self.index() {
                Some(i) => if self.reversed() {
                    event_pair_code(self.name(), i, value@)
                } else {
                    event_pair_code(self.name(), value@, i)
                },
                None => event_value_code(self.name(), value@),
            },
    {
        match &self.event_index {
            Some(index) => {
                let (first, second) = if self.index_reversed {
                    (index.as_str(), value)
                } else {
                    (value, index.as_str())
                };
                let mut code = String::from_str(first);
                code.append(" ");
                code.append(second);
                code.append(" (>K:2:");
                code.append(self.event_name.as_str());
                code.append(")");
                code
            },
            None => {
                let mut code = String::from_str(value);
                code.append(" (>K:");
                code.append(self.event_name.as_str());
                code.append(")");
                code
            },
        }
    }
}

/// Listens to key event `event_name`, mapped to `id`, and counts how many
/// times it was triggered.
#[derive(Debug)]
pub struct KeyEvent {
    trigger_count: u32,
    event_name: String,
    id: u32,
}

impl KeyEvent {
    pub closed spec fn count(&self) -> u32 {
        self.trigger_count
    }

    pub closed spec fn name(&self) -> Seq<char> {
        self.event_name@
    }

    pub closed spec fn event_id(&self) -> u32 {
        self.id
    }

    /// A listener for `event_name`, which the simulator mapped to `id`.
    pub fn new(event_name: String, id: u32) -> (res: Self)
        ensures
            res.count() == 0,
            res.name() == event_name@,
            res.event_id() == id,
    {
        KeyEvent { id, trigger_count: 0, event_name }
    }

    /// Counts one more trigger.
    pub fn increment_count(&mut self)
        requires
            old(self).count() < u32::MAX,
        ensures
            final(self).count() == old(self).count() + 1,
            final(self).name() == old(self).name(),
            final(self).event_id() == old(self).event_id(),
    {
        self.trigger_count = self.trigger_count + 1;
    }

    pub fn reset_count(&mut self)
        ensures
            final(self).count() == 0,
            final(self).name() == old(self).name(),
            final(self).event_id() == old(self).event_id(),
    {
        self.trigger_count = 0;
    }

    pub fn trigger_count(&self) -> (res: u32)
        ensures
            res == self.count(),
    {
        self.trigger_count
    }

    pub fn id(&self) -> (res: u32)
        ensures
            res == self.event_id(),
    {
        self.id
    }

    /// The code that triggers the event with `value`, written as text.
    pub fn incoming_code(&self, value: &str) -> (res: String)
        ensures
            res@ == event_value_code(self.name(), value@),
    {
        let mut code = String::from_str(value);
        code.append(" (>K:");
        code.append(self.event_name.as_str());
        code.append(")");
        code
    }
}

/// Counts how often a settable was set, and keeps the last value set, as the
/// bit pattern of a 64-bit float.
pub struct EventCallCounter {
    pub called_count: u32,
    pub last_set_value: u64,
}

impl EventCallCounter {
    pub fn new() -> (res: Self)
        ensures
            res.called_count == 0,
            res.last_set_value == 0,
    {
        EventCallCounter { called_count: 0, last_set_value: 0 }
    }

    pub fn reset(&mut self)
        ensures
            final(self).called_count == 0,
            final(self).last_set_value == 0,
    {
        self.called_count = 0;
        self.last_set_value = 0;
    }

    /// One call with no value.
    pub fn set(&mut self)
        requires
            old(self).called_count < u32::MAX,
        ensures
            final(self).called_count == old(self).called_count + 1,
            final(self).last_set_value == old(self).last_set_value,
    {
        self.called_count = self.called_count + 1;
    }

    /// One call with `value`.
    pub fn set_with_value(&mut self, value: u64)
        requires
            old(self).called_count < u32::MAX,
        ensures
            final(self).called_count == old(self).called_count + 1,
            final(self).last_set_value == value,
    {
        self.called_count = self.called_count + 1;
        self.last_set_value = value;
    }
}

/// A variable that holds a value, as the bit pattern of a 64-bit float, and
/// ignores sets from outside.
pub struct TestVariable {
    value: u64,
}

impl TestVariable {
    pub closed spec fn value(&self) -> u64 {
        self.value
    }

    pub fn new(value: u64) -> (res: Self)
        ensures
            res.value() == value,
    {
        TestVariable { value }
    }

    pub fn set_new_value(&mut self, value: u64)
        ensures
            final(self).value() == value,
    {
        self.value = value;
    }

    pub fn get(&self) -> (res: u64)
        ensures
            res == self.value(),
    {
        self.value
    }

    /// A set from outside, which does nothing.
    pub fn set(&mut self, value: u64)
        ensures
            final(self).value() == old(self).value(),
    {
    }
}

pub fn get_test_variable(value: u64) -> (res: TestVariable)
    ensures
        res.value() == value,
{
    TestVariable::new(value)
}

pub fn get_call_counter() -> (res: EventCallCounter)
    ensures
        res.called_count == 0,
        res.last_set_value == 0,
{
    EventCallCounter::new()
}

/// Which event a toggle switch fires.
#[derive(Clone, Copy, Debug, PartialEq, Eq, Structural)]
pub enum ToggleChoice {
    Nothing,
    Event,
    OffEvent,
}

/// A switch that fires its event when the incoming state differs from its
/// own; turning off fires the off event when there is one; a switch that only
/// switches on ignores turning off.
#[derive(Clone, Copy, Debug, PartialEq, Eq, Structural)]
pub struct ToggleSwitch {
    pub has_off_event: bool,
    pub switch_on: bool,
}

impl ToggleSwitch {
    /// The event to fire when the switch should be on (`should_be_on`: the
    /// incoming value is 1) and is on (`currently_on`) or not.
    pub fn process_incoming(&self, should_be_on: bool, currently_on: bool) -> (res: ToggleChoice)
        ensures
            res == if should_be_on == currently_on || (!should_be_on && self.switch_on) {
                ToggleChoice::Nothing
            } else if should_be_on || !self.has_off_event {
                ToggleChoice::Event
            } else {
                ToggleChoice::OffEvent
            },
    {
        if should_be_on == currently_on {
            return ToggleChoice::Nothing;
        }
        if !should_be_on && self.switch_on {
            return ToggleChoice::Nothing;
        }
        if should_be_on {
            ToggleChoice::Event
        } else if self.has_off_event {
            ToggleChoice::OffEvent
        } else {
            ToggleChoice::Event
        }
    }
}

/// The digit of `ds` at `i`, or 0 past its end.
pub open spec fn digit_at(ds: Seq<i32>, i: int) -> int {
    if 0 <= i < ds.len() {
        ds[i] as int
    } else {
        0
    }
}

/// How many times each digit's increment and decrement events fire to turn
/// `current` into `target`, digit by digit from the left, for as many digits
/// as there are both kinds of events.
pub open spec fn digit_steps(current: int, target: int, inc_events: nat, dec_events: nat) -> Seq<(int, int)> {
    let n = if inc_events < dec_events {
        inc_events
    } else {
        dec_events
    };
    Seq::new(
        n,
        |i: int|
            {
                let from = digit_at(digits_of(current), i);
                let to = digit_at(digits_of(target), i);
                if from > to {
                    (0, from - to)
                } else {
                    (to - from, 0)
                }
            },
    )
}

/// A number set digit by digit, each digit with an increment and a decrement
/// event.
#[derive(Clone, Copy, Debug, PartialEq, Eq, Structural)]
pub struct NumDigitSet {
    pub inc_events: usize,
    pub dec_events: usize,
}

impl NumDigitSet {
    /// How many times each digit's events fire, as `(increments,
    /// decrements)`, to go from `current` to `value`: see `digit_steps`.
    pub fn process_incoming(&self, current: i32, value: i32) -> (res: Vec<(u32, u32)>)
        ensures
            res@.len() == digit_steps(current as int, value as int, self.inc_events as nat, self.dec_events as nat).len(),
            forall|i: int|
                0 <= i < res@.len() ==> (res@[i].0 as int, res@[i].1 as int) == #[trigger] digit_steps(
                    current as int,
                    value as int,
                    self.inc_events as nat,
                    self.dec_events as nat,
                )[i],
    {
        let current_digits = NumberDigits::new(current);
        let value_digits = NumberDigits::new(value);
        proof {
            crate::digits::lemma_digits_round_trip(if current > 0 {
                current as int
            } else {
                0
            });
            crate::digits::lemma_digits_round_trip(if value > 0 {
                value as int
            } else {
                0
            });
        }
        let mut res: Vec<(u32, u32)> = Vec::new();
        let mut index: usize = 0;
        while index < self.inc_events && index < self.dec_events
            invariant
                index <= self.inc_events,
                index <= self.dec_events,
                current_digits@ == digits_of(current as int),
                value_digits@ == digits_of(value as int),
                forall|i: int| 0 <= i < digits_of(current as int).len() ==> 0 <= #[trigger] digits_of(current as int)[i] <= 9,
                forall|i: int| 0 <= i < digits_of(value as int).len() ==> 0 <= #[trigger] digits_of(value as int)[i] <= 9,
                res@.len() == index,
                forall|i: int|
                    0 <= i < index ==> (res@[i].0 as int, res@[i].1 as int) == #[trigger] digit_steps(
                        current as int,
                        value as int,
                        self.inc_events as nat,
                        self.dec_events as nat,
                    )[i],
            decreases self.inc_events - index,
        {
            let working_value = current_digits.get(index);
            let new_digit = value_digits.get(index);
            if working_value > new_digit {
                res.push((0, (working_value - new_digit) as u32));
            } else {
                res.push(((new_digit - working_value) as u32, 0));
            }
            index = index + 1;
        }
        res
    }
}

} // verus!
