//! Device drivers above the bus level.

use vstd::prelude::*;

verus! {

/// The colour of one light of a strip.
#[derive(Copy, Clone, Debug)]
pub struct LED {
    pub red: u8,
    pub blue: u8,
    pub green: u8,
}

/// The bytes at `i` of the frame for `leds`: four zero bytes to start, then
/// for every light full brightness and its three colours, then one zero byte
/// for every sixteen lights or part of sixteen.
pub open spec fn spec_led_byte(leds: Seq<LED>, i: int) -> u8 {
    if i < 4 {
        0
    } else if i < 4 + 4 * leds.len() {
        let led = leds[(i - 4) / 4];
        let part = (i - 4) % 4;
        if part == 0 {
            0xff
        } else if part == 1 {
            led.red
        } else if part == 2 {
            led.blue
        } else {
            led.green
        }
    } else {
        0
    }
}

/// The length of the frame for `n` lights.
pub open spec fn spec_led_frame_len(n: int) -> int {
    4 + 4 * n + (n + 15) / 16
}

/// The frame that sets a strip of lights to `leds`.
pub fn drive_leds(leds: &Vec<LED>) -> (buf: Vec<u8>)
    requires
        leds@.len() <= usize::MAX - 15,
    ensures
        buf@.len() == spec_led_frame_len(leds@.len() as int),
        forall|i: int| 0 <= i < buf@.len() ==> buf@[i] == spec_led_byte(leds@, i),
{
    let mut transaction_buf: Vec<u8> = Vec::new();
    let brightness: u8 = 0xFF;
    transaction_buf.push(0);
    transaction_buf.push(0);
    transaction_buf.push(0);
    transaction_buf.push(0);
    let mut k: usize = 0;
    while k < leds.len()
        invariant
            k <= leds@.len(),
            brightness == 0xff,
            transaction_buf@.len() == 4 + 4 * k,
            forall|i: int|
                0 <= i < transaction_buf@.len() ==> transaction_buf@[i] == spec_led_byte(leds@, i),
        decreases leds@.len() - k,
    {
        let led = &leds[k];
        transaction_buf.push(brightness);
        transaction_buf.push(led.red);
        transaction_buf.push(led.blue);
        transaction_buf.push(led.green);
        k = k + 1;
    }
    let tail = (leds.len() + 15) / 16;
    let mut j: usize = 0;
    while j < tail
        invariant
            j <= tail,
            transaction_buf@.len() == 4 + 4 * leds@.len() + j,
            forall|i: int|
                0 <= i < transaction_buf@.len() ==> transaction_buf@[i] == spec_led_byte(leds@, i),
        decreases tail - j,
    {
        transaction_buf.push(0);
        j = j + 1;
    }
    transaction_buf
}

} // verus!
