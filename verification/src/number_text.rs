use vstd::prelude::*;
use crate::dec::Dec;
use crate::display::{dec_display, int_text_of, int_to_text, nat_to_text};
use crate::error::NumberText;
use crate::int_types::Int;
use crate::wide::{i256_text, u256_text, I256, U256};
use crate::wide512::{i512_text, u512_text, I512, U512};

verus! {

impl NumberText for u32 {
    open spec fn spec_text(&self) -> Seq<char> {
        int_text_of(*self as int)
    }

    open spec fn spec_writable() -> bool {
        true
    }

    fn text(&self) -> (r: String) {
        nat_to_text(*self as u128)
    }
}

impl NumberText for u64 {
    open spec fn spec_text(&self) -> Seq<char> {
        int_text_of(*self as int)
    }

    open spec fn spec_writable() -> bool {
        true
    }

    fn text(&self) -> (r: String) {
        nat_to_text(*self as u128)
    }
}

impl NumberText for u128 {
    open spec fn spec_text(&self) -> Seq<char> {
        int_text_of(*self as int)
    }

    open spec fn spec_writable() -> bool {
        true
    }

    fn text(&self) -> (r: String) {
        nat_to_text(*self)
    }
}

impl NumberText for i64 {
    open spec fn spec_text(&self) -> Seq<char> {
        int_text_of(*self as int)
    }

    open spec fn spec_writable() -> bool {
        true
    }

    fn text(&self) -> (r: String) {
        int_to_text(*self as i128)
    }
}

impl NumberText for i128 {
    open spec fn spec_text(&self) -> Seq<char> {
        int_text_of(*self as int)
    }

    open spec fn spec_writable() -> bool {
        true
    }

    fn text(&self) -> (r: String) {
        int_to_text(*self)
    }
}

impl NumberText for U256 {
    open spec fn spec_text(&self) -> Seq<char> {
        int_text_of(self.value())
    }

    open spec fn spec_writable() -> bool {
        true
    }

    fn text(&self) -> (r: String) {
        u256_text(*self)
    }
}

impl NumberText for I256 {
    open spec fn spec_text(&self) -> Seq<char> {
        int_text_of(self.value())
    }

    open spec fn spec_writable() -> bool {
        true
    }

    fn text(&self) -> (r: String) {
        i256_text(*self)
    }
}

impl NumberText for U512 {
    open spec fn spec_text(&self) -> Seq<char> {
        int_text_of(self.value())
    }

    open spec fn spec_writable() -> bool {
        true
    }

    fn text(&self) -> (r: String) {
        u512_text(*self)
    }
}

impl NumberText for I512 {
    open spec fn spec_text(&self) -> Seq<char> {
        int_text_of(self.value())
    }

    open spec fn spec_writable() -> bool {
        true
    }

    fn text(&self) -> (r: String) {
        i512_text(*self)
    }
}

/// An integer writes the number it wraps.
impl<U: NumberText> NumberText for Int<U> {
    open spec fn spec_text(&self) -> Seq<char> {
        self.0.spec_text()
    }

    open spec fn spec_writable() -> bool {
        U::spec_writable()
    }

    fn text(&self) -> (r: String) {
        self.0.text()
    }
}

impl<const S: u32> NumberText for Dec<u128, S> {
    open spec fn spec_text(&self) -> Seq<char> {
        dec_display(self.0.0 as int, S as nat)
    }

    open spec fn spec_writable() -> bool {
        S <= 38
    }

    fn text(&self) -> (r: String) {
        self.to_text()
    }
}

impl<const S: u32> NumberText for Dec<i128, S> {
    open spec fn spec_text(&self) -> Seq<char> {
        dec_display(self.0.0 as int, S as nat)
    }

    open spec fn spec_writable() -> bool {
        S <= 38
    }

    fn text(&self) -> (r: String) {
        self.to_text()
    }
}

impl<const S: u32> NumberText for Dec<U256, S> {
    open spec fn spec_text(&self) -> Seq<char> {
        dec_display(self.0.0.value(), S as nat)
    }

    open spec fn spec_writable() -> bool {
        S <= 38
    }

    fn text(&self) -> (r: String) {
        self.to_text()
    }
}

impl<const S: u32> NumberText for Dec<I256, S> {
    open spec fn spec_text(&self) -> Seq<char> {
        dec_display(self.0.0.value(), S as nat)
    }

    open spec fn spec_writable() -> bool {
        S <= 38
    }

    fn text(&self) -> (r: String) {
        self.to_text()
    }
}

} // verus!
