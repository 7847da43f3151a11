//! What the dongle relays: reports of the keyboard to the host, frames of the host
//! to the keyboard.

use vstd::prelude::*;
use crate::ble::conn::ConnParams;
use crate::dongle::router::joined;
use crate::protocol::frame::RYNK_BLE_CHUNK_SIZE;
use crate::types::{
    KeyboardReport, MediaKeyboardReport, MouseReport, Report, SystemControlReport,
};

verus! {

/// UUID of a HID report characteristic.
pub const REPORT_UUID: u16 = 0x2A4D;

/// A characteristic of the keyboard, as discovery found it.
#[derive(Clone, Copy, Debug, PartialEq, Eq, Structural)]
pub struct CharacteristicInfo {
    /// Its 16-bit UUID, where it has one.
    pub uuid: Option<u16>,
    /// The handle of its value.
    pub handle: u16,
    /// The handle that notifications are switched on at, where it notifies.
    pub cccd_handle: Option<u16>,
}

/// The characteristics the relay needs on the keyboard.
#[derive(Clone, Copy, Debug, PartialEq, Eq, Structural)]
pub struct KeyboardCharacteristics {
    pub keyboard_input: CharacteristicInfo,
    pub keyboard_output: CharacteristicInfo,
    pub mouse: CharacteristicInfo,
    pub media: CharacteristicInfo,
    pub system: CharacteristicInfo,
    pub rynk_input: CharacteristicInfo,
    pub rynk_output: CharacteristicInfo,
}

/// The report characteristics among `all`, in their order.
pub open spec fn report_chars(all: Seq<CharacteristicInfo>) -> Seq<CharacteristicInfo> {
    all.filter(|c: CharacteristicInfo| c.uuid == Some(REPORT_UUID))
}

/// A signed byte as a report carries it.
pub open spec fn signed(byte: u8) -> i8 {
    if byte < 128 {
        byte as i8
    } else {
        (byte - 256) as i8
    }
}

fn to_signed(byte: u8) -> (r: i8)
    ensures
        r == signed(byte),
{
    if byte < 128 {
        byte as i8
    } else {
        (byte as i16 - 256) as i8
    }
}

/// Whether `report` is the HID report that a notification carries. The BLE boot
/// report and the USB one carry the same bytes, so the handle alone identifies
/// it; a payload that is too short carries none.
pub open spec fn carried_report(
    c: KeyboardCharacteristics,
    handle: u16,
    data: Seq<u8>,
    report: Option<Report>,
) -> bool {
    if handle == c.keyboard_input.handle && data.len() >= 8 {
        report matches Some(Report::KeyboardReport(k)) && k.modifier == data[0] && k.reserved == 0
            && k.leds == 0 && k.keycodes@ == data.subrange(2, 8)
    } else if handle == c.mouse.handle && data.len() >= 5 {
        report == Some(
            Report::MouseReport(
                MouseReport {
                    buttons: data[0],
                    x: signed(data[1]),
                    y: signed(data[2]),
                    wheel: signed(data[3]),
                    pan: signed(data[4]),
                },
            ),
        )
    } else if handle == c.media.handle && data.len() >= 2 {
        report == Some(
            Report::MediaKeyboardReport(
                MediaKeyboardReport { usage_id: (data[0] + 256 * data[1]) as u16 },
            ),
        )
    } else if handle == c.system.handle && data.len() > 0 {
        report == Some(Report::SystemControlReport(SystemControlReport { usage_id: data[0] }))
    } else {
        report is None
    }
}

/// Where a notification of the keyboard goes.
#[derive(Clone, Copy, Debug, PartialEq, Eq)]
pub enum NotificationRoute {
    /// To the host, as a HID report.
    Report(Report),
    /// To the host, byte for byte.
    Host,
    /// Nowhere.
    Drop,
}

impl KeyboardCharacteristics {
    /// No two of the characteristics that notify share a handle.
    pub open spec fn distinct(self) -> bool {
        &&& self.rynk_input.handle != self.keyboard_input.handle
        &&& self.rynk_input.handle != self.mouse.handle
        &&& self.rynk_input.handle != self.media.handle
        &&& self.rynk_input.handle != self.system.handle
    }

    /// Sorts what discovery found. The five HID report characteristics share a
    /// UUID; both ends declare them in one fixed order: keyboard input, keyboard
    /// output, mouse, media, system.
    pub fn discover(
        hid: &Vec<CharacteristicInfo>,
        rynk_input: Option<CharacteristicInfo>,
        rynk_output: Option<CharacteristicInfo>,
    ) -> (r: Option<Self>)
        ensures
            match r {
                Some(c) => {
                    let reports = report_chars(hid@);
                    &&& reports.len() >= 5
                    &&& c.keyboard_input == reports[0]
                    &&& c.keyboard_output == reports[1]
                    &&& c.mouse == reports[2]
                    &&& c.media == reports[3]
                    &&& c.system == reports[4]
                    &&& rynk_input == Some(c.rynk_input)
                    &&& rynk_output == Some(c.rynk_output)
                },
                None => report_chars(hid@).len() < 5 || rynk_input is None || rynk_output is None,
            },
    {
        let mut reports: Vec<CharacteristicInfo> = Vec::new();
        let mut i: usize = 0;
        proof {
            assert(hid@.subrange(0, 0) =~= Seq::<CharacteristicInfo>::empty());
            reveal(Seq::filter);
        }
        while i < hid.len()
            invariant
                i <= hid@.len(),
                reports@ == report_chars(hid@.subrange(0, i as int)),
            decreases hid@.len() - i,
        {
            let c = hid[i];
            let is_report = match c.uuid {
                Some(u) => u == REPORT_UUID,
                None => false,
            };
            proof {
                let p = hid@.subrange(0, i as int);
                assert(hid@.subrange(0, i + 1) =~= p.push(c));
                assert(p.push(c).drop_last() =~= p);
                reveal(Seq::filter);
            }
            if is_report {
                reports.push(c);
            }
            i = i + 1;
        }
        assert(hid@.subrange(0, i as int) =~= hid@);
        if reports.len() < 5 {
            return None;
        }
        match (rynk_input, rynk_output) {
            (Some(rynk_input), Some(rynk_output)) => Some(
                KeyboardCharacteristics {
                    keyboard_input: reports[0],
                    keyboard_output: reports[1],
                    mouse: reports[2],
                    media: reports[3],
                    system: reports[4],
                    rynk_input,
                    rynk_output,
                },
            ),
            _ => None,
        }
    }

    /// Everything the keyboard notifies on, in the order in which it is
    /// subscribed to: the handles to write, once each.
    pub fn subscribe(&self) -> (r: Vec<u16>)
        ensures
            r@ == subscription_handles(
                seq![
                    self.keyboard_input,
                    self.mouse,
                    self.media,
                    self.system,
                    self.rynk_input,
                ],
            ),
    {
        let mut chars: Vec<CharacteristicInfo> = Vec::new();
        chars.push(self.keyboard_input);
        chars.push(self.mouse);
        chars.push(self.media);
        chars.push(self.system);
        chars.push(self.rynk_input);
        let ghost all = seq![
            self.keyboard_input,
            self.mouse,
            self.media,
            self.system,
            self.rynk_input,
        ];
        assert(chars@ =~= all);
        let mut out: Vec<u16> = Vec::new();
        let mut i: usize = 0;
        assert(all.subrange(0, 0) =~= Seq::<CharacteristicInfo>::empty());
        while i < chars.len()
            invariant
                i <= chars@.len(),
                chars@ == all,
                out@ == subscription_handles(all.subrange(0, i as int)),
            decreases chars@.len() - i,
        {
            proof {
                assert(all.subrange(0, i + 1).drop_last() =~= all.subrange(0, i as int));
                assert(all.subrange(0, i + 1).last() == chars@[i as int]);
            }
            if let Some(handle) = chars[i].cccd_handle {
                out.push(handle);
            }
            i = i + 1;
        }
        assert(all.subrange(0, i as int) =~= all);
        out
    }

    /// The HID report a notification carries, or `None` when the handle is not a
    /// report characteristic or the payload is short.
    pub fn report(&self, handle: u16, data: &[u8]) -> (r: Option<Report>)
        ensures
            carried_report(*self, handle, data@, r),
    {
        if handle == self.keyboard_input.handle && data.len() >= 8 {
            let keycodes = [data[2], data[3], data[4], data[5], data[6], data[7]];
            assert(keycodes@ =~= data@.subrange(2, 8));
            Some(
                Report::KeyboardReport(
                    KeyboardReport { modifier: data[0], reserved: 0, leds: 0, keycodes },
                ),
            )
        } else if handle == self.mouse.handle && data.len() >= 5 {
            Some(
                Report::MouseReport(
                    MouseReport {
                        buttons: data[0],
                        x: to_signed(data[1]),
                        y: to_signed(data[2]),
                        wheel: to_signed(data[3]),
                        pan: to_signed(data[4]),
                    },
                ),
            )
        } else if handle == self.media.handle && data.len() >= 2 {
            let usage_id: u16 = data[0] as u16 + 256 * (data[1] as u16);
            Some(Report::MediaKeyboardReport(MediaKeyboardReport { usage_id }))
        } else if handle == self.system.handle && data.len() > 0 {
            Some(Report::SystemControlReport(SystemControlReport { usage_id: data[0] }))
        } else {
            None
        }
    }

    /// Where a notification goes. Only the host protocol's stream is opaque, and
    /// it goes straight to the host.
    pub fn route(&self, handle: u16, data: &[u8]) -> (r: NotificationRoute)
        ensures
            if handle == self.rynk_input.handle {
                r == NotificationRoute::Host
            } else {
                match r {
                    NotificationRoute::Report(report) => carried_report(
                        *self,
                        handle,
                        data@,
                        Some(report),
                    ),
                    NotificationRoute::Drop => carried_report(*self, handle, data@, None),
                    NotificationRoute::Host => false,
                }
            },
    {
        if handle == self.rynk_input.handle {
            return NotificationRoute::Host;
        }
        match self.report(handle, data) {
            Some(report) => NotificationRoute::Report(report),
            None => NotificationRoute::Drop,
        }
    }

    /// Where a notification goes, with the reports looked at first.
    pub fn route_reports_first(&self, handle: u16, data: &[u8]) -> (r: NotificationRoute)
        ensures
            match r {
                NotificationRoute::Report(report) => carried_report(
                    *self,
                    handle,
                    data@,
                    Some(report),
                ),
                NotificationRoute::Host => carried_report(*self, handle, data@, None) && handle
                    == self.rynk_input.handle,
                NotificationRoute::Drop => carried_report(*self, handle, data@, None) && handle
                    != self.rynk_input.handle,
            },
    {
        match self.report(handle, data) {
            Some(report) => NotificationRoute::Report(report),
            None => {
                if handle == self.rynk_input.handle {
                    NotificationRoute::Host
                } else {
                    NotificationRoute::Drop
                }
            },
        }
    }
}

/// The handles that notifications of `chars` are switched on at.
pub open spec fn subscription_handles(chars: Seq<CharacteristicInfo>) -> Seq<u16>
    decreases chars.len(),
{
    if chars.len() == 0 {
        Seq::empty()
    } else {
        let rest = subscription_handles(chars.drop_last());
        match chars.last().cccd_handle {
            Some(handle) => rest.push(handle),
            None => rest,
        }
    }
}

/// What is written to a subscription handle to switch notifications on.
pub fn subscribe_value() -> (r: [u8; 2])
    ensures
        r@ == seq![1u8, 0u8],
{
    let r = [1u8, 0u8];
    assert(r@ =~= seq![1u8, 0u8]);
    r
}

/// Largest single write on the host protocol's characteristic: what the ATT MTU
/// leaves after a write's 3-byte header, within the protocol's own limit, and
/// never nothing.
pub fn rynk_chunk_size(att_mtu: u16) -> (r: usize)
    ensures
        r == if att_mtu <= 4 {
            1
        } else if att_mtu - 3 < RYNK_BLE_CHUNK_SIZE {
            att_mtu - 3
        } else {
            RYNK_BLE_CHUNK_SIZE as int
        },
{
    let mtu: usize = att_mtu as usize;
    let room: usize = if mtu >= 3 {
        mtu - 3
    } else {
        0
    };
    let size: usize = if room < RYNK_BLE_CHUNK_SIZE {
        room
    } else {
        RYNK_BLE_CHUNK_SIZE
    };
    if size < 1 {
        1
    } else {
        size
    }
}

/// The part of what is left of a frame that is written next: as much as one write
/// takes.
pub open spec fn first_part(rest: Seq<u8>, size: int) -> Seq<u8> {
    rest.subrange(
        0,
        if rest.len() <= size {
            rest.len() as int
        } else {
            size
        },
    )
}

/// A frame on its way to the keyboard, written part by part.
#[derive(Debug)]
pub struct FrameParts {
    frame: Vec<u8>,
    sent: usize,
    size: usize,
}

impl FrameParts {
    /// What is still to be written.
    pub closed spec fn rest(&self) -> Seq<u8> {
        self.frame@.subrange(self.sent as int, self.frame@.len() as int)
    }

    /// Most bytes of one write.
    pub closed spec fn part_size(&self) -> int {
        self.size as int
    }

    pub closed spec fn wf(&self) -> bool {
        self.sent <= self.frame@.len() && self.size > 0
    }

    pub fn new(frame: Vec<u8>, size: usize) -> (r: Self)
        requires
            size > 0,
        ensures
            r.wf(),
            r.rest() == frame@,
            r.part_size() == size,
    {
        let r = FrameParts { frame, sent: 0, size };
        assert(r.rest() =~= frame@);
        r
    }

    fn part_end(&self) -> (end: usize)
        requires
            self.wf(),
        ensures
            self.sent <= end <= self.frame@.len(),
            self.frame@.subrange(self.sent as int, end as int) == first_part(
                self.rest(),
                self.part_size(),
            ),
            self.sent < self.frame@.len() ==> self.sent < end,
    {
        let left: usize = self.frame.len() - self.sent;
        let end: usize = if left <= self.size {
            self.frame.len()
        } else {
            self.sent + self.size
        };
        assert(self.frame@.subrange(self.sent as int, end as int) =~= first_part(
            self.rest(),
            self.part_size(),
        ));
        end
    }

    /// The next part, or `None` where nothing is left.
    pub fn next_part(&self) -> (r: Option<Vec<u8>>)
        requires
            self.wf(),
        ensures
            match r {
                Some(part) => self.rest().len() > 0 && part@ == first_part(
                    self.rest(),
                    self.part_size(),
                ),
                None => self.rest().len() == 0,
            },
    {
        if self.sent == self.frame.len() {
            return None;
        }
        let end: usize = self.part_end();
        let part = vstd::slice::slice_subrange(self.frame.as_slice(), self.sent, end);
        Some(vstd::slice::slice_to_vec(part))
    }

    /// The part was written, or was not: what follows a part that was lost is not
    /// written either.
    pub fn written(&mut self, ok: bool)
        requires
            old(self).wf(),
        ensures
            final(self).wf(),
            final(self).part_size() == old(self).part_size(),
            final(self).rest() == if ok {
                old(self).rest().skip(first_part(old(self).rest(), old(self).part_size()).len() as int)
            } else {
                Seq::empty()
            },
    {
        if ok {
            let end: usize = self.part_end();
            proof {
                let part = first_part(self.rest(), self.part_size());
                assert(part.len() == end - self.sent);
                assert(self.frame@.subrange(end as int, self.frame@.len() as int)
                    =~= self.rest().skip(part.len() as int));
            }
            self.sent = end;
        } else {
            self.sent = self.frame.len();
            assert(self.rest() =~= Seq::<u8>::empty());
        }
    }
}

/// Parameters for the link once it relays: 7.5 ms interval, the same latency
/// budget as a split link. The generous supervision timeout trades reconnect
/// latency after a dongle power-cycle (rare) for radio-interference tolerance
/// during normal use.
pub fn relay_conn_params() -> (r: ConnParams)
    ensures
        r == (ConnParams {
            min_interval_us: 7_500,
            max_interval_us: 7_500,
            max_latency: 30,
            supervision_timeout_us: 10_000_000,
        }),
        r.sound(),
{
    ConnParams {
        min_interval_us: 7_500,
        max_interval_us: 7_500,
        max_latency: 30,
        supervision_timeout_us: 10_000_000,
    }
}

/// Parameters while a link is secured and discovered: the relaying interval, but
/// no latency and a longer supervision timeout.
pub fn connect_params() -> (r: ConnParams)
    ensures
        r == (ConnParams {
            min_interval_us: 7_500,
            max_interval_us: 7_500,
            max_latency: 0,
            supervision_timeout_us: 30_000_000,
        }),
        r.sound(),
{
    let r = ConnParams {
        max_latency: 0,
        supervision_timeout_us: 30_000_000,
        ..relay_conn_params()
    };
    assert(2 * (1 + r.max_latency) * r.max_interval_us < r.supervision_timeout_us)
        by (nonlinear_arith)
        requires
            r.max_latency == 0,
            r.max_interval_us == 7_500,
            r.supervision_timeout_us == 30_000_000,
    ;
    r
}

/// What the host is sent when the link drops, so that nothing stays held down: one
/// empty report of each kind.
pub fn release_held_keys() -> (r: Vec<Report>)
    ensures
        r@.len() == 4,
        r@[0] matches Report::KeyboardReport(k) && k.modifier == 0 && k.reserved == 0 && k.leds == 0
            && k.keycodes@ == Seq::new(6, |i: int| 0u8),
        r@[1] == Report::MouseReport(MouseReport { buttons: 0, x: 0, y: 0, wheel: 0, pan: 0 }),
        r@[2] == Report::MediaKeyboardReport(MediaKeyboardReport { usage_id: 0 }),
        r@[3] == Report::SystemControlReport(SystemControlReport { usage_id: 0 }),
{
    let keycodes = [0u8;6];
    assert(keycodes@ =~= Seq::new(6, |i: int| 0u8));
    let mut out: Vec<Report> = Vec::new();
    out.push(
        Report::KeyboardReport(KeyboardReport { modifier: 0, reserved: 0, leds: 0, keycodes }),
    );
    out.push(Report::MouseReport(MouseReport { buttons: 0, x: 0, y: 0, wheel: 0, pan: 0 }));
    out.push(Report::MediaKeyboardReport(MediaKeyboardReport { usage_id: 0 }));
    out.push(Report::SystemControlReport(SystemControlReport { usage_id: 0 }));
    out
}

/// A notification on the host protocol's characteristic never carries a report,
/// as long as no report characteristic shares its handle: looking at the reports
/// first or last makes no difference.
pub proof fn law_the_order_of_routing_does_not_matter(
    c: KeyboardCharacteristics,
    handle: u16,
    data: Seq<u8>,
    report: Option<Report>,
)
    requires
        c.distinct(),
        handle == c.rynk_input.handle,
        carried_report(c, handle, data, report),
    ensures
        report is None,
{
}

/// The parts that a frame is written in while every write succeeds.
pub open spec fn parts_of(frame: Seq<u8>, size: int) -> Seq<Seq<u8>>
    decreases frame.len(),
{
    if frame.len() == 0 || size <= 0 {
        Seq::empty()
    } else {
        let part = first_part(frame, size);
        seq![part] + parts_of(frame.skip(part.len() as int), size)
    }
}

/// The parts of a frame are the frame, cut where a write is full: put together they
/// are the frame again, and each of them fits.
pub proof fn law_the_parts_make_up_the_frame(frame: Seq<u8>, size: int)
    requires
        size > 0,
    ensures
        joined(parts_of(frame, size)) == frame,
        forall|i: int|
            0 <= i < parts_of(frame, size).len() ==> 0 < (#[trigger] parts_of(
                frame,
                size,
            )[i]).len() <= size,
    decreases frame.len(),
{
    let parts = parts_of(frame, size);
    if frame.len() > 0 {
        let part = first_part(frame, size);
        let rest = frame.skip(part.len() as int);
        law_the_parts_make_up_the_frame(rest, size);
        let tail = parts_of(rest, size);
        assert(parts == seq![part] + tail);
        assert(parts.drop_first() =~= tail);
        assert(part + rest =~= frame);
        assert forall|i: int| 0 <= i < parts.len() implies 0 < (#[trigger] parts[i]).len()
            <= size by {
            if i > 0 {
                assert(parts[i] == tail[i - 1]);
            }
        }
    }
}

// ---------------------------------------------------------------------------
// Laws
// ---------------------------------------------------------------------------

/// A byte stands for itself below 128 and for itself less 256 from there on, so that no two bytes
/// stand for the same number.
pub proof fn law_a_signed_byte_keeps_its_bits(a: u8, b: u8)
    ensures
        a < 128 ==> signed(a) == a,
        a >= 128 ==> signed(a) == a - 256,
        signed(a) == signed(b) ==> a == b,
{
}

/// A report is made of the bytes of its notification: for the keyboard the modifiers and the six
/// keys behind the reserved byte, for the mouse the buttons and four signed motions, for media
/// keys the usage, low byte first, and for system keys the usage. A report that is too short is
/// none, and neither is what came from elsewhere.
pub proof fn law_a_report_is_made_of_its_bytes(
    c: KeyboardCharacteristics,
    handle: u16,
    data: Seq<u8>,
    report: Option<Report>,
    i: int,
)
    requires
        carried_report(c, handle, data, report),
        c.keyboard_input.handle != c.mouse.handle,
        c.keyboard_input.handle != c.media.handle,
        c.keyboard_input.handle != c.system.handle,
        c.mouse.handle != c.media.handle,
        c.mouse.handle != c.system.handle,
        c.media.handle != c.system.handle,
    ensures
        handle == c.keyboard_input.handle ==> (if data.len() < 8 {
            report is None
        } else {
            report matches Some(Report::KeyboardReport(k)) && k.modifier == data[0] && (0 <= i < 6
                ==> k.keycodes@[i] == data[i + 2])
        }),
        handle == c.mouse.handle ==> (if data.len() < 5 {
            report is None
        } else {
            report matches Some(Report::MouseReport(m)) && m.buttons == data[0] && m.x == signed(
                data[1],
            ) && m.y == signed(data[2]) && m.wheel == signed(data[3]) && m.pan == signed(data[4])
        }),
        handle == c.media.handle ==> (if data.len() < 2 {
            report is None
        } else {
            report matches Some(Report::MediaKeyboardReport(m)) && m.usage_id == data[0] + 256
                * data[1]
        }),
        handle == c.system.handle ==> (if data.len() < 1 {
            report is None
        } else {
            report matches Some(Report::SystemControlReport(s)) && s.usage_id == data[0]
        }),
        handle != c.keyboard_input.handle && handle != c.mouse.handle && handle != c.media.handle
            && handle != c.system.handle ==> report is None,
{
}

/// Notifications are switched on at the handle of every characteristic that notifies, in order,
/// and nowhere else.
pub proof fn law_every_notifier_is_subscribed_to(chars: Seq<CharacteristicInfo>, handle: u16)
    ensures
        subscription_handles(chars).contains(handle) <==> exists|i: int|
            0 <= i < chars.len() && (#[trigger] chars[i]).cccd_handle == Some(handle),
        (forall|i: int| 0 <= i < chars.len() ==> (#[trigger] chars[i]).cccd_handle is Some)
            ==> subscription_handles(chars).len() == chars.len(),
    decreases chars.len(),
{
    if chars.len() > 0 {
        let p = chars.drop_last();
        let rest = subscription_handles(p);
        let all = subscription_handles(chars);
        let last = chars.len() - 1;
        law_every_notifier_is_subscribed_to(p, handle);
        if all.contains(handle) {
            let k = choose|k: int| 0 <= k < all.len() && all[k] == handle;
            if k < rest.len() {
                assert(rest[k] == handle);
                let i = choose|i: int|
                    0 <= i < p.len() && (#[trigger] p[i]).cccd_handle == Some(handle);
                assert(chars[i] == p[i]);
            } else {
                assert(chars[last].cccd_handle == Some(handle));
            }
        }
        if exists|i: int|
            0 <= i < chars.len() && (#[trigger] chars[i]).cccd_handle == Some(handle) {
            let i = choose|i: int|
                0 <= i < chars.len() && (#[trigger] chars[i]).cccd_handle == Some(handle);
            if i < last {
                assert(p[i] == chars[i]);
                let k = choose|k: int| 0 <= k < rest.len() && rest[k] == handle;
                assert(all[k] == handle);
            } else {
                assert(all[rest.len() as int] == handle);
            }
        }
        if forall|i: int| 0 <= i < chars.len() ==> (#[trigger] chars[i]).cccd_handle is Some {
            assert(chars[last].cccd_handle is Some);
            assert forall|i: int| 0 <= i < p.len() implies (
            #[trigger] p[i]).cccd_handle is Some by {
                assert(p[i] == chars[i]);
            }
        }
    } else {
        assert(subscription_handles(chars).len() == 0);
    }
}

/// A write takes what the MTU leaves behind its three bytes of header, up to 244, and at least
/// one byte.
pub proof fn law_a_write_fits_the_mtu(att_mtu: u16, size: usize)
    requires
        rynk_chunk_size.ensures((att_mtu,), size),
    ensures
        1 <= size <= 244,
        att_mtu >= 4 ==> size + 3 <= att_mtu,
        size < 244 && att_mtu >= 4 ==> size + 3 == att_mtu,
{
}

} // verus!
