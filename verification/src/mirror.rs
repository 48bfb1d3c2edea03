//! The mirror protocol: each datagram streams LED colours into the frame.
//!
//! Byte 0 is the command, byte 1 is unused, byte 2 is the number `n` of LEDs
//! carried, and bytes `3 + 3k .. 3 + 3k + 3` are the red, green and blue of the
//! `k`-th LED. A running pixel counter, kept by the caller between datagrams,
//! is advanced before each LED; counter value `c` addresses column `c / 16`,
//! row `c % 16` (columns past the panel are ignored).

use vstd::prelude::*;
use crate::frame::{Matrix, with_pixel, frame_wf, on_panel, pixel_at, law_pixel_read_back};

verus! {

/// Command: paint the LEDs that follow the last one painted.
pub const CMD_CONTINUE: u8 = 0;

/// Command: reset the pixel counter, then paint.
pub const CMD_RESTART: u8 = 1;

/// Command: paint the LEDs that follow the last one painted, then show the frame twice.
pub const CMD_FINISH: u8 = 2;

/// Frame `f` after painting the first `n` LEDs carried by `msg`, starting from counter `start`.
pub open spec fn run_frame(f: Seq<u8>, start: int, msg: Seq<u8>, n: nat) -> Seq<u8>
    decreases n,
{
    if n == 0 {
        f
    } else {
        let c = start + n;
        let a = 3 * (n - 1) + 3;
        with_pixel(
            run_frame(f, start, msg, (n - 1) as nat),
            c / 16,
            c % 16,
            msg[a],
            msg[a + 1],
            msg[a + 2],
        )
    }
}

/// The datagrams that are handled without fault when the counter stands at
/// `pixel_index`: a header is present, the LEDs announced are all carried, and
/// the counter does not overflow.
pub open spec fn message_accepted(msg: Seq<u8>, pixel_index: int) -> bool {
    &&& msg.len() >= 3
    &&& (msg[0] == CMD_CONTINUE || msg[0] == CMD_RESTART || msg[0] == CMD_FINISH) ==> msg.len()
        >= 3 * msg[2] + 3
    &&& (msg[0] == CMD_CONTINUE || msg[0] == CMD_FINISH) ==> pixel_index + msg[2] <= u32::MAX
}

/// The frame after handling datagram `msg` with the counter at `pixel_index`.
pub open spec fn message_frame(f: Seq<u8>, pixel_index: int, msg: Seq<u8>) -> Seq<u8> {
    if msg[0] == CMD_CONTINUE || msg[0] == CMD_FINISH {
        run_frame(f, pixel_index, msg, msg[2] as nat)
    } else if msg[0] == CMD_RESTART {
        run_frame(f, 0, msg, msg[2] as nat)
    } else {
        f
    }
}

/// The pixel counter after handling datagram `msg` with the counter at `pixel_index`.
pub open spec fn message_pixel_index(pixel_index: int, msg: Seq<u8>) -> int {
    if msg[0] == CMD_CONTINUE || msg[0] == CMD_FINISH {
        pixel_index + msg[2]
    } else if msg[0] == CMD_RESTART {
        msg[2] as int
    } else {
        pixel_index
    }
}

/// How many times the frame is written to the panel after datagram `msg`.
pub open spec fn message_pushes(msg: Seq<u8>) -> int {
    if msg[0] == CMD_FINISH {
        2
    } else {
        1
    }
}

fn paint_run(data_in: &[u8], matrix: &mut Matrix, pixel_index: &mut u32, len: u8)
    requires
        data_in@.len() >= 3 * len + 3,
        *old(pixel_index) + len <= u32::MAX,
    ensures
        final(matrix)@ == run_frame(
            old(matrix)@,
            *old(pixel_index) as int,
            data_in@,
            len as nat,
        ),
        *final(pixel_index) == *old(pixel_index) + len,
{
    let ghost f0 = matrix@;
    let ghost start = *pixel_index as int;
    for data_index in 0..len
        invariant
            matrix@ == run_frame(f0, start, data_in@, data_index as nat),
            *pixel_index == start + data_index,
            start + len <= u32::MAX,
            data_in@.len() >= 3 * len + 3,
    {
        *pixel_index = *pixel_index + 1;
        let arr_index = data_index as usize * 3 + 3;
        matrix.set_pixel(
            *pixel_index / 16,
            *pixel_index % 16,
            data_in[arr_index],
            data_in[arr_index + 1],
            data_in[arr_index + 2],
        );
    }
}

/// Handles one datagram of the mirror protocol: paints the LEDs it carries
/// into `matrix`, advances `pixel_index`, and returns how many times the
/// caller must then write the frame to the panel.
pub fn handle_incoming_message(data_in: &[u8], matrix: &mut Matrix, pixel_index: &mut u32) -> (pushes: usize)
    requires
        message_accepted(data_in@, *old(pixel_index) as int),
    ensures
        final(matrix)@ == message_frame(old(matrix)@, *old(pixel_index) as int, data_in@),
        *final(pixel_index) == message_pixel_index(*old(pixel_index) as int, data_in@),
        pushes == message_pushes(data_in@),
        data_in@[0] == CMD_CONTINUE ==> *final(pixel_index) == *old(pixel_index) + data_in@[2]
            && pushes == 1,
        data_in@[0] == CMD_FINISH ==> *final(pixel_index) == *old(pixel_index) + data_in@[2]
            && pushes == 2,
        data_in@[0] == CMD_RESTART ==> *final(pixel_index) == data_in@[2] && pushes == 1,
        data_in@[0] != CMD_CONTINUE && data_in@[0] != CMD_FINISH && data_in@[0] != CMD_RESTART
            ==> *final(pixel_index) == *old(pixel_index) && pushes == 1 && final(matrix)@ == old(
            matrix,
        )@,
{
    let x_index = data_in[0];
    let len = data_in[2];
    let mut pushes: usize = 0;
    if x_index == CMD_CONTINUE {
        paint_run(data_in, matrix, pixel_index, len);
    }
    if x_index == CMD_RESTART {
        *pixel_index = 0;
        paint_run(data_in, matrix, pixel_index, len);
    }
    if x_index == CMD_FINISH {
        paint_run(data_in, matrix, pixel_index, len);
        pushes = pushes + 1;
    }
    pushes = pushes + 1;
    pushes
}

/// Law: a restart datagram paints the same frame, and leaves the same counter,
/// whatever the counter stood at before it.
pub proof fn law_restart_ignores_counter(f: Seq<u8>, a: int, b: int, msg: Seq<u8>)
    requires
        msg.len() >= 3,
        msg[0] == CMD_RESTART,
    ensures
        message_frame(f, a, msg) == message_frame(f, b, msg),
        message_pixel_index(a, msg) == message_pixel_index(b, msg),
{
}

/// Painting a run reads only the LED bytes of the run.
proof fn lemma_run_frame_agree(f: Seq<u8>, start: int, m1: Seq<u8>, m2: Seq<u8>, n: nat)
    requires
        forall|k: int| 3 <= k < 3 * n + 3 ==> m1[k] == m2[k],
    ensures
        run_frame(f, start, m1, n) == run_frame(f, start, m2, n),
    decreases n,
{
    if n > 0 {
        lemma_run_frame_agree(f, start, m1, m2, (n - 1) as nat);
        let a = 3 * (n - 1) + 3;
        assert(m1[a] == m2[a] && m1[a + 1] == m2[a + 1] && m1[a + 2] == m2[a + 2]);
    }
}

/// A run of `n1 + n2` LEDs paints as a run of `n1` LEDs followed by a run of `n2`.
proof fn lemma_run_frame_split(
    f: Seq<u8>,
    start: int,
    first: Seq<u8>,
    second: Seq<u8>,
    whole: Seq<u8>,
    n1: nat,
    n2: nat,
)
    requires
        forall|k: int| 3 <= k < 3 * n1 + 3 ==> whole[k] == first[k],
        forall|k: int| 3 <= k < 3 * n2 + 3 ==> whole[3 * n1 + k] == second[k],
    ensures
        run_frame(run_frame(f, start, first, n1), start + n1, second, n2) == run_frame(
            f,
            start,
            whole,
            n1 + n2,
        ),
    decreases n2,
{
    if n2 == 0 {
        lemma_run_frame_agree(f, start, first, whole, n1);
    } else {
        lemma_run_frame_split(f, start, first, second, whole, n1, (n2 - 1) as nat);
        let a = 3 * (n2 - 1) + 3;
        assert(whole[3 * n1 + a] == second[a]);
        assert(whole[3 * n1 + a + 1] == second[a + 1]);
        assert(whole[3 * n1 + a + 2] == second[a + 2]);
        assert(3 * ((n1 + n2) - 1) + 3 == 3 * n1 + a);
        assert(start + n1 + n2 == start + (n1 + n2));
    }
}

/// Law: LEDs streamed in two continue datagrams paint the same frame, and
/// leave the same counter, as the same LEDs streamed in one.
pub proof fn law_split_stream(
    f: Seq<u8>,
    start: int,
    first: Seq<u8>,
    second: Seq<u8>,
    whole: Seq<u8>,
)
    requires
        first.len() >= 3,
        second.len() >= 3,
        whole.len() >= 3,
        first[0] == CMD_CONTINUE,
        second[0] == CMD_CONTINUE,
        whole[0] == CMD_CONTINUE,
        whole[2] == first[2] + second[2],
        forall|k: int| 3 <= k < 3 * first[2] + 3 ==> whole[k] == first[k],
        forall|k: int| 3 <= k < 3 * second[2] + 3 ==> whole[3 * first[2] + k] == second[k],
    ensures
        message_frame(
            message_frame(f, start, first),
            message_pixel_index(start, first),
            second,
        ) == message_frame(f, start, whole),
        message_pixel_index(message_pixel_index(start, first), second) == message_pixel_index(
            start,
            whole,
        ),
{
    lemma_run_frame_split(f, start, first, second, whole, first[2] as nat, second[2] as nat);
}

/// Painting a run keeps the frame well formed.
proof fn lemma_run_frame_wf(f: Seq<u8>, start: int, msg: Seq<u8>, n: nat)
    requires
        frame_wf(f),
    ensures
        frame_wf(run_frame(f, start, msg, n)),
    decreases n,
{
    if n > 0 {
        lemma_run_frame_wf(f, start, msg, (n - 1) as nat);
        let c = start + n;
        let a = 3 * (n - 1) + 3;
        if on_panel(c / 16, c % 16) {
            law_pixel_read_back(
                run_frame(f, start, msg, (n - 1) as nat),
                c / 16,
                c % 16,
                msg[a],
                msg[a + 1],
                msg[a + 2],
            );
        }
    }
}

/// In a run painted from counter `start`, the LED of counter `start + k + 1`
/// shows the colour of the run's `k`-th LED.
proof fn lemma_run_frame_led(f: Seq<u8>, start: int, msg: Seq<u8>, n: nat, k: int)
    requires
        frame_wf(f),
        0 <= start,
        0 <= k < n,
        on_panel((start + k + 1) / 16, (start + k + 1) % 16),
    ensures
        pixel_at(run_frame(f, start, msg, n), (start + k + 1) / 16, (start + k + 1) % 16) == (
            msg[3 * k + 3],
            msg[3 * k + 4],
            msg[3 * k + 5],
        ),
    decreases n,
{
    let v = start + k + 1;
    let c = start + n;
    let a = 3 * (n - 1) + 3;
    let prev = run_frame(f, start, msg, (n - 1) as nat);
    lemma_run_frame_wf(f, start, msg, (n - 1) as nat);
    if n == k + 1 {
        law_pixel_read_back(prev, v / 16, v % 16, msg[a], msg[a + 1], msg[a + 2]);
    } else {
        lemma_run_frame_led(f, start, msg, (n - 1) as nat, k);
        if on_panel(c / 16, c % 16) {
            assert(c == 16 * (c / 16) + c % 16);
            assert(v == 16 * (v / 16) + v % 16);
            law_pixel_read_back(prev, c / 16, c % 16, msg[a], msg[a + 1], msg[a + 2]);
            assert(pixel_at(with_pixel(prev, c / 16, c % 16, msg[a], msg[a + 1], msg[a + 2]), v / 16, v % 16)
                == pixel_at(prev, v / 16, v % 16));
        }
    }
}

/// Law: a continue or finish datagram paints its LEDs after the counter,
/// whatever the counter stands at: its `k`-th LED lands on counter
/// `pixel_index + k + 1`, i.e. column `(pixel_index + k + 1) / 16`, row
/// `(pixel_index + k + 1) % 16`, and the counter ends at `pixel_index + n`.
/// A restart datagram does the same from counter 0 and leaves the counter at `n`.
pub proof fn law_stream_paints_each_led(f: Seq<u8>, pixel_index: int, msg: Seq<u8>, k: int)
    requires
        frame_wf(f),
        0 <= pixel_index,
        msg.len() >= 3,
        0 <= k < msg[2],
    ensures
        (msg[0] == CMD_CONTINUE || msg[0] == CMD_FINISH) && on_panel(
            (pixel_index + k + 1) / 16,
            (pixel_index + k + 1) % 16,
        ) ==> pixel_at(
            message_frame(f, pixel_index, msg),
            (pixel_index + k + 1) / 16,
            (pixel_index + k + 1) % 16,
        ) == (msg[3 * k + 3], msg[3 * k + 4], msg[3 * k + 5]),
        (msg[0] == CMD_CONTINUE || msg[0] == CMD_FINISH) ==> message_pixel_index(pixel_index, msg)
            == pixel_index + msg[2],
        msg[0] == CMD_RESTART && on_panel((k + 1) / 16, (k + 1) % 16) ==> pixel_at(
            message_frame(f, pixel_index, msg),
            (k + 1) / 16,
            (k + 1) % 16,
        ) == (msg[3 * k + 3], msg[3 * k + 4], msg[3 * k + 5]),
        msg[0] == CMD_RESTART ==> message_pixel_index(pixel_index, msg) == msg[2],
{
    if (msg[0] == CMD_CONTINUE || msg[0] == CMD_FINISH) && on_panel(
        (pixel_index + k + 1) / 16,
        (pixel_index + k + 1) % 16,
    ) {
        lemma_run_frame_led(f, pixel_index, msg, msg[2] as nat, k);
    }
    if msg[0] == CMD_RESTART && on_panel((k + 1) / 16, (k + 1) % 16) {
        lemma_run_frame_led(f, 0, msg, msg[2] as nat, k);
    }
}

/// Law: a finish datagram paints exactly what a continue datagram with the
/// same LEDs paints, and advances the counter alike; it differs only in asking
/// for two writes of the frame instead of one.
pub proof fn law_finish_is_continue_then_show(f: Seq<u8>, pixel_index: int, msg: Seq<u8>)
    requires
        msg.len() >= 3,
        msg.len() >= 3 * msg[2] + 3,
        msg[0] == CMD_FINISH,
    ensures
        message_frame(f, pixel_index, msg) == message_frame(f, pixel_index, msg.update(0, CMD_CONTINUE)),
        message_pixel_index(pixel_index, msg) == pixel_index + msg[2],
        message_pixel_index(pixel_index, msg.update(0, CMD_CONTINUE)) == pixel_index + msg[2],
        message_pushes(msg) == 2,
        message_pushes(msg.update(0, CMD_CONTINUE)) == 1,
{
    let m2 = msg.update(0, CMD_CONTINUE);
    assert forall|j: int| 3 <= j < 3 * msg[2] + 3 implies msg[j] == m2[j] by {}
    lemma_run_frame_agree(f, pixel_index, msg, m2, msg[2] as nat);
}

/// In a run painted from counter `start`, an LED whose counter value is not
/// among `start + 1 ..= start + n` keeps its colour.
proof fn lemma_run_frame_other(f: Seq<u8>, start: int, msg: Seq<u8>, n: nat, x: int, y: int)
    requires
        frame_wf(f),
        on_panel(x, y),
        !(start < 16 * x + y <= start + n),
    ensures
        pixel_at(run_frame(f, start, msg, n), x, y) == pixel_at(f, x, y),
    decreases n,
{
    if n > 0 {
        lemma_run_frame_other(f, start, msg, (n - 1) as nat, x, y);
        lemma_run_frame_wf(f, start, msg, (n - 1) as nat);
        let c = start + n;
        let a = 3 * (n - 1) + 3;
        let prev = run_frame(f, start, msg, (n - 1) as nat);
        if on_panel(c / 16, c % 16) {
            assert(c == 16 * (c / 16) + c % 16);
            law_pixel_read_back(prev, c / 16, c % 16, msg[a], msg[a + 1], msg[a + 2]);
            assert(pixel_at(with_pixel(prev, c / 16, c % 16, msg[a], msg[a + 1], msg[a + 2]), x, y)
                == pixel_at(prev, x, y));
        }
    }
}

/// Law: a datagram changes no LED but those it paints: with the counter at
/// `c` before a continue or finish datagram of `n` LEDs (at 0 for a restart),
/// an LED `(x, y)` whose counter value `16 * x + y` is not among `c + 1 ..= c + n`
/// keeps its colour; any other command changes no LED at all.
pub proof fn law_stream_leaves_other_leds(f: Seq<u8>, pixel_index: int, msg: Seq<u8>, x: int, y: int)
    requires
        frame_wf(f),
        msg.len() >= 3,
        on_panel(x, y),
    ensures
        (msg[0] == CMD_CONTINUE || msg[0] == CMD_FINISH) && !(pixel_index < 16 * x + y
            <= pixel_index + msg[2]) ==> pixel_at(message_frame(f, pixel_index, msg), x, y)
            == pixel_at(f, x, y),
        msg[0] == CMD_RESTART && !(0 < 16 * x + y <= msg[2]) ==> pixel_at(
            message_frame(f, pixel_index, msg),
            x,
            y,
        ) == pixel_at(f, x, y),
        msg[0] != CMD_CONTINUE && msg[0] != CMD_FINISH && msg[0] != CMD_RESTART ==> message_frame(
            f,
            pixel_index,
            msg,
        ) == f,
{
    if (msg[0] == CMD_CONTINUE || msg[0] == CMD_FINISH) && !(pixel_index < 16 * x + y
        <= pixel_index + msg[2]) {
        lemma_run_frame_other(f, pixel_index, msg, msg[2] as nat, x, y);
    }
    if msg[0] == CMD_RESTART && !(0 < 16 * x + y <= msg[2]) {
        lemma_run_frame_other(f, 0, msg, msg[2] as nat, x, y);
    }
}

} // verus!
