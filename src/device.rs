//! A brightness device and the engine that computes its new brightness.

use crate::enums::ValueUpdate;
use crate::utils::{lemma_percent_to_value_monotone, lemma_value_to_percent_range, percent_to_value, percent_to_value_wide, value_to_percent, value_to_percent_wide};
use vstd::prelude::*;

verus! {

/// A device as the engine sees it.
pub ghost struct DeviceView {
    pub class: Seq<char>,
    pub id: Seq<char>,
    pub current: int,
    pub max: int,
}

/// Brightness that `update` resolves to from `seed`, before clamping.
pub open spec fn resolve(seed: int, max: int, update: ValueUpdate) -> int {
    match update {
        ValueUpdate::Delta(x) => seed + x,
        ValueUpdate::Direct(x) => x as int,
        ValueUpdate::Relative(x) => percent_to_value(value_to_percent(seed, max) + x, max),
        ValueUpdate::Absolute(x) => percent_to_value(x as int, max),
    }
}

/// `v` brought into `[0, max]`.
pub open spec fn clamp(v: int, max: int) -> int {
    if v < 0 {
        0
    } else if v > max {
        max
    } else {
        v
    }
}

/// New brightness of a device at `current` of `max` after `update`.
pub open spec fn target_value(current: int, max: int, update: ValueUpdate) -> int {
    clamp(resolve(current, max, update), max)
}

/// Lowest brightness that `floor` allows on a device of maximum `max`.
pub open spec fn floor_value(max: int, floor: ValueUpdate) -> int {
    resolve(max, max, floor)
}

/// The larger of two integers.
pub open spec fn larger(a: int, b: int) -> int {
    if a >= b {
        a
    } else {
        b
    }
}

/// Setting a device directly to its current brightness leaves it there.
pub proof fn lemma_direct_current_unchanged(current: i64, max: i64)
    requires
        0 <= current <= max,
        0 < max,
    ensures
        target_value(current as int, max as int, ValueUpdate::Direct(current)) == current,
{
}

/// For a fixed device, a larger offset never gives a lower brightness: the
/// new brightness after `Delta` and after `Relative` is non-decreasing in the
/// signed offset.
pub proof fn lemma_target_monotone(current: i64, max: i64, x: i64, y: i64)
    requires
        0 <= current <= max,
        0 < max,
        x <= y,
    ensures
        target_value(current as int, max as int, ValueUpdate::Delta(x)) <= target_value(
            current as int,
            max as int,
            ValueUpdate::Delta(y),
        ),
        target_value(current as int, max as int, ValueUpdate::Relative(x)) <= target_value(
            current as int,
            max as int,
            ValueUpdate::Relative(y),
        ),
{
    let p = value_to_percent(current as int, max as int);
    lemma_percent_to_value_monotone(p + x, p + y, max as int);
}

/// What a caller does with a computed brightness.
#[derive(Debug, Clone, Copy, PartialEq, Eq, Structural)]
pub enum WriteAction {
    /// Write the value to the device.
    Apply(i64),
    /// Report the value and write nothing.
    Pretend(i64),
}

/// A brightness device: its class, its name, and its current and maximum
/// brightness, with `0 <= current <= max` and `max > 0`.
#[derive(Debug)]
pub struct Device {
    class: String,
    id: String,
    curr_brightness: i64,
    max_brightness: i64,
}

impl View for Device {
    type V = DeviceView;

    closed spec fn view(&self) -> DeviceView {
        DeviceView {
            class: self.class@,
            id: self.id@,
            current: self.curr_brightness as int,
            max: self.max_brightness as int,
        }
    }
}

impl Clone for Device {
    fn clone(&self) -> (r: Device)
        ensures
            r@ == self@,
    {
        proof {
            use_type_invariant(self);
        }
        Device {
            class: self.class.clone(),
            id: self.id.clone(),
            curr_brightness: self.curr_brightness,
            max_brightness: self.max_brightness,
        }
    }
}

impl Device {
    #[verifier::type_invariant]
    spec fn inv(&self) -> bool {
        &&& 0 <= self.curr_brightness <= self.max_brightness
        &&& 0 < self.max_brightness
    }

    /// A device with the given state, or `None` where the state is not one a
    /// device can be in.
    pub fn new(class: String, id: String, curr_brightness: i64, max_brightness: i64)
        -> (r: Option<Device>)
        ensures
            r is Some <==> 0 <= curr_brightness <= max_brightness && 0 < max_brightness,
            r matches Some(d) ==> d@ == (DeviceView {
                class: class@,
                id: id@,
                current: curr_brightness as int,
                max: max_brightness as int,
            }),
    {
        if 0 <= curr_brightness && curr_brightness <= max_brightness && 0 < max_brightness {
            Some(Device { class, id, curr_brightness, max_brightness })
        } else {
            None
        }
    }

    pub fn get_max_brightness(&self) -> (r: i64)
        ensures
            r == self@.max,
            0 < r,
            0 <= self@.current <= r,
    {
        proof {
            use_type_invariant(self);
        }
        self.max_brightness
    }

    pub fn get_curr_brightness(&self) -> (r: i64)
        ensures
            r == self@.current,
            0 <= r <= self@.max,
    {
        proof {
            use_type_invariant(self);
        }
        self.curr_brightness
    }

    pub fn get_id(&self) -> (r: &str)
        ensures
            r@ == self@.id,
    {
        self.id.as_str()
    }

    pub fn get_class(&self) -> (r: &str)
        ensures
            r@ == self@.class,
    {
        self.class.as_str()
    }

    /// Brightness that `update` resolves to from `value`, unclamped.
    fn compute_for_val(&self, value: i64, update: &ValueUpdate) -> (r: i128)
        requires
            *update matches ValueUpdate::Relative(x) ==> -0x1_0000_0000_0000_0000
                <= value_to_percent(value as int, self@.max) + x <= 0x1_0000_0000_0000_0000,
        ensures
            r == resolve(value as int, self@.max, *update),
    {
        let max = self.get_max_brightness();
        match update {
            ValueUpdate::Delta(x) => value as i128 + *x as i128,
            ValueUpdate::Direct(x) => *x as i128,
            ValueUpdate::Relative(x) => {
                let p = value_to_percent_wide(value, max);
                percent_to_value_wide(p + *x as i128, max)
            },
            ValueUpdate::Absolute(x) => percent_to_value_wide(*x as i128, max),
        }
    }

    /// Lowest brightness that `min_value` allows, resolved from the maximum
    /// brightness; `None` where it does not fit in an `i64`.
    pub fn compute_min_value(&self, min_value: &ValueUpdate) -> (r: Option<i64>)
        ensures
            r is Some <==> i64::MIN <= floor_value(self@.max, *min_value) <= i64::MAX,
            r matches Some(v) ==> v == floor_value(self@.max, *min_value),
    {
        let max = self.get_max_brightness();
        proof {
            lemma_value_to_percent_range(max as int, max as int);
        }
        let v = self.compute_for_val(max, min_value);
        if i64::MIN as i128 <= v && v <= i64::MAX as i128 {
            Some(v as i64)
        } else {
            None
        }
    }

    /// New brightness after `update`, clamped to `[0, max]`.
    pub fn compute_from_update(&self, update_value: &ValueUpdate) -> (r: i64)
        ensures
            r == target_value(self@.current, self@.max, *update_value),
            0 <= r <= self@.max,
    {
        let max = self.get_max_brightness();
        let current = self.get_curr_brightness();
        proof {
            lemma_value_to_percent_range(current as int, max as int);
        }
        let new_val = self.compute_for_val(current, update_value);
        if new_val < 0 {
            0
        } else if new_val > max as i128 {
            max
        } else {
            new_val as i64
        }
    }

    /// What to do for `update_value` under the floor `min_value`: the new
    /// brightness is the larger of the two, written unless `pretend` holds.
    pub fn plan_write(&self, update_value: &ValueUpdate, min_value: i64, pretend: bool)
        -> (r: WriteAction)
        ensures
            ({
                let v = larger(target_value(self@.current, self@.max, *update_value), min_value as int);
                if pretend {
                    r == WriteAction::Pretend(v as i64)
                } else {
                    r == WriteAction::Apply(v as i64)
                }
            }),
    {
        let target = self.compute_from_update(update_value);
        let v = if target >= min_value {
            target
        } else {
            min_value
        };
        if pretend {
            WriteAction::Pretend(v)
        } else {
            WriteAction::Apply(v)
        }
    }
}

} // verus!
