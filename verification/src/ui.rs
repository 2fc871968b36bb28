use vstd::prelude::*;
use vstd::string::*;
use vstd::utf8::encode_utf8;
use crate::text::{
    all_ascii_digits, decimal, digits_value, lemma_decimal_digits, push_decimal, push_two_digits,
    two_digits,
};
use crate::text::{fit_fragments, fitted, lemma_fitted_within_room, views};
use crate::time::{clock_text, Time};
use crate::time_sync::ConnectionState;
use crate::tz_name::{tz_name_as_str, tz_name_chars, tz_name_clone, tz_name_eq};

verus! {

/// Room, in bytes, for the text of the information screen.
pub const INFO_TEXT_CAPACITY: usize = 128;

/// Which screen is shown: the binary clock, the ring clock, or the network
/// information.
#[derive(Copy, Clone, Debug, PartialEq, Eq, Structural)]
pub enum UiType {
    BcdTime,
    RegularTime,
    Info,
}

impl UiType {
    /// The screen that follows this one when the user flips through them.
    pub open spec fn following(self) -> UiType {
        match self {
            UiType::BcdTime => UiType::RegularTime,
            UiType::RegularTime => UiType::Info,
            UiType::Info => UiType::BcdTime,
        }
    }

    pub fn next(self) -> (r: Self)
        ensures
            r == self.following(),
    {
        match self {
            UiType::BcdTime => UiType::RegularTime,
            UiType::RegularTime => UiType::Info,
            UiType::Info => UiType::BcdTime,
        }
    }
}

/// Flipping through the screens three times comes back to the first.
pub proof fn law_ui_type_cycles(u: UiType)
    ensures
        u.following().following().following() == u,
{
}

/// What the information screen reports about the network and the last time
/// synchronisation.
pub struct Info {
    pub ssid: &'static str,
    pub state: ConnectionState,
    pub ip_address: Option<[u8; 4]>,
    pub timezone_name: Option<heapless::String<32>>,
    pub sync_time: Option<Time>,
}

/// Whether two optional zone names hold the same text.
pub open spec fn same_zone_name(a: Option<heapless::String<32>>, b: Option<heapless::String<32>>) -> bool {
    match (a, b) {
        (None, None) => true,
        (Some(x), Some(y)) => tz_name_chars(x) == tz_name_chars(y),
        _ => false,
    }
}

impl Info {
    /// Whether the two reports say the same thing.
    pub open spec fn same_content(self, other: Info) -> bool {
        &&& self.ssid@ == other.ssid@
        &&& self.state == other.state
        &&& self.ip_address == other.ip_address
        &&& same_zone_name(self.timezone_name, other.timezone_name)
        &&& self.sync_time == other.sync_time
    }

    /// A report for the network `ssid` that knows nothing yet.
    pub fn new(ssid: &'static str) -> (info: Self)
        ensures
            info.ssid == ssid,
            info.state == ConnectionState::Disconnected,
            info.ip_address is None,
            info.timezone_name is None,
            info.sync_time is None,
    {
        Info {
            ssid,
            state: ConnectionState::Disconnected,
            ip_address: None,
            timezone_name: None,
            sync_time: None,
        }
    }

    pub fn set_state(&mut self, state: ConnectionState)
        ensures
            *final(self) == (Info { state, ..*old(self) }),
    {
        self.state = state;
    }

    pub fn set_ip_address(&mut self, ip: [u8; 4])
        ensures
            *final(self) == (Info { ip_address: Some(ip), ..*old(self) }),
    {
        self.ip_address = Some(ip);
    }

    /// Forgets the address, as when the connection is dropped.
    pub fn clear_ip_address(&mut self)
        ensures
            *final(self) == (Info { ip_address: None, ..*old(self) }),
    {
        self.ip_address = None;
    }

    pub fn set_timezone(&mut self, name: heapless::String<32>)
        ensures
            *final(self) == (Info { timezone_name: Some(name), ..*old(self) }),
    {
        self.timezone_name = Some(name);
    }

    pub fn set_sync_time(&mut self, time: Time)
        ensures
            *final(self) == (Info { sync_time: Some(time), ..*old(self) }),
    {
        self.sync_time = Some(time);
    }

    /// Whether this report says the same as `other`.
    pub fn same_as(&self, other: &Info) -> (r: bool)
        ensures
            r == self.same_content(*other),
    {
        let ssid_same = self.ssid.to_owned() == other.ssid.to_owned();
        let state_same = self.state == other.state;
        let ip_same = match (&self.ip_address, &other.ip_address) {
            (None, None) => true,
            (Some(a), Some(b)) => {
                let same = a[0] == b[0] && a[1] == b[1] && a[2] == b[2] && a[3] == b[3];
                proof {
                    if same {
                        assert(*a =~= *b);
                    }
                }
                same
            },
            _ => false,
        };
        let name_same = match (&self.timezone_name, &other.timezone_name) {
            (None, None) => true,
            (Some(a), Some(b)) => tz_name_eq(a, b),
            _ => false,
        };
        let time_same = match (&self.sync_time, &other.sync_time) {
            (None, None) => true,
            (Some(a), Some(b)) => *a == *b,
            _ => false,
        };
        ssid_same && state_same && ip_same && name_same && time_same
    }
}

/// The name that `{:?}` gives a connection state.
pub open spec fn connection_state_name(s: ConnectionState) -> Seq<char> {
    match s {
        ConnectionState::Disconnected => "Disconnected"@,
        ConnectionState::Connecting => "Connecting"@,
        ConnectionState::Connected => "Connected"@,
        ConnectionState::Sleeping => "Sleeping"@,
    }
}

/// The state line names each connection state by its own variant name, as
/// `{:?}` writes it, and different states get different names.
pub proof fn law_state_names(a: ConnectionState, b: ConnectionState)
    ensures
        connection_state_name(ConnectionState::Disconnected) == seq![
            'D', 'i', 's', 'c', 'o', 'n', 'n', 'e', 'c', 't', 'e', 'd',
        ],
        connection_state_name(ConnectionState::Connecting) == seq![
            'C', 'o', 'n', 'n', 'e', 'c', 't', 'i', 'n', 'g',
        ],
        connection_state_name(ConnectionState::Connected) == seq![
            'C', 'o', 'n', 'n', 'e', 'c', 't', 'e', 'd',
        ],
        connection_state_name(ConnectionState::Sleeping) == seq!['S', 'l', 'e', 'e', 'p', 'i', 'n', 'g'],
        a != b ==> connection_state_name(a) != connection_state_name(b),
{
    reveal_strlit("Disconnected");
    reveal_strlit("Connecting");
    reveal_strlit("Connected");
    reveal_strlit("Sleeping");
    assert(connection_state_name(ConnectionState::Disconnected) =~= seq![
        'D', 'i', 's', 'c', 'o', 'n', 'n', 'e', 'c', 't', 'e', 'd',
    ]);
    assert(connection_state_name(ConnectionState::Connecting) =~= seq![
        'C', 'o', 'n', 'n', 'e', 'c', 't', 'i', 'n', 'g',
    ]);
    assert(connection_state_name(ConnectionState::Connected) =~= seq![
        'C', 'o', 'n', 'n', 'e', 'c', 't', 'e', 'd',
    ]);
    assert(connection_state_name(ConnectionState::Sleeping) =~= seq![
        'S', 'l', 'e', 'e', 'p', 'i', 'n', 'g',
    ]);
    // the four names have four different lengths
    if a != b {
        assert(connection_state_name(a).len() != connection_state_name(b).len());
    }
}

/// The pieces in which an address is written: the four numbers and the dots
/// between them, or "N/A" when there is none.
pub open spec fn ip_fragments(ip: Option<[u8; 4]>) -> Seq<Seq<char>> {
    match ip {
        Some(a) => seq![
            decimal(a[0] as nat),
            "."@,
            decimal(a[1] as nat),
            "."@,
            decimal(a[2] as nat),
            "."@,
            decimal(a[3] as nat),
        ],
        None => seq!["N/A"@],
    }
}

/// An address is written as its four numbers in order, in decimal, with dots
/// between them; no address is written "N/A".
pub proof fn law_ip_reads_back(a: [u8; 4])
    ensures
        ip_fragments(Some(a)).len() == 7,
        forall|k: int|
            0 <= k < 4 ==> all_ascii_digits(#[trigger] ip_fragments(Some(a))[2 * k])
                && digits_value(ip_fragments(Some(a))[2 * k]) == a[k],
        forall|k: int| 0 <= k < 3 ==> #[trigger] ip_fragments(Some(a))[2 * k + 1] == seq!['.'],
        ip_fragments(None) == seq![seq!['N', '/', 'A']],
{
    reveal_strlit(".");
    reveal_strlit("N/A");
    lemma_decimal_digits(a[0] as nat);
    lemma_decimal_digits(a[1] as nat);
    lemma_decimal_digits(a[2] as nat);
    lemma_decimal_digits(a[3] as nat);
    assert("."@ =~= seq!['.']);
    assert("N/A"@ =~= seq!['N', '/', 'A']);
    let f = ip_fragments(Some(a));
    assert forall|k: int| 0 <= k < 4 implies all_ascii_digits(#[trigger] f[2 * k]) && digits_value(
        f[2 * k],
    ) == a[k] by {
        if k == 0 {
            assert(f[0] == decimal(a[0] as nat));
        } else if k == 1 {
            assert(f[2] == decimal(a[1] as nat));
        } else if k == 2 {
            assert(f[4] == decimal(a[2] as nat));
        } else {
            assert(f[6] == decimal(a[3] as nat));
        }
    }
    assert forall|k: int| 0 <= k < 3 implies #[trigger] f[2 * k + 1] == seq!['.'] by {
        if k == 0 {
            assert(f[1] == "."@);
        } else if k == 1 {
            assert(f[3] == "."@);
        } else {
            assert(f[5] == "."@);
        }
    }
}

/// The pieces in which the information screen's text is written, in order.
pub open spec fn info_fragments(info: Info) -> Seq<Seq<char>> {
    seq!["SSID: "@, info.ssid@, "\nState: "@, connection_state_name(info.state), "\nIP: "@]
        + ip_fragments(info.ip_address) + seq![
        "\nTZ: "@,
        match info.timezone_name {
            Some(name) => tz_name_chars(name),
            None => "N/A"@,
        },
        "\nSync Time: "@,
        match info.sync_time {
            Some(t) => clock_text(t),
            None => "N/A"@,
        },
    ]
}

fn push_piece(frags: &mut Vec<String>, piece: &str)
    ensures
        views(final(frags)@) == views(old(frags)@).push(piece@),
{
    let ghost before = frags@;
    frags.push(piece.to_owned());
    assert(views(frags@) =~= views(before).push(piece@));
}

fn push_decimal_piece(frags: &mut Vec<String>, n: u8)
    ensures
        views(final(frags)@) == views(old(frags)@).push(decimal(n as nat)),
{
    let mut s = String::new();
    push_decimal(&mut s, n);
    assert(s@ =~= decimal(n as nat));
    let ghost before = frags@;
    frags.push(s);
    assert(views(frags@) =~= views(before).push(decimal(n as nat)));
}

impl Info {
    /// The text of the information screen: the network name, the connection
    /// state, the address, the time zone and the time of the last
    /// synchronisation, one per line, written into a buffer of 128 bytes that
    /// keeps whole pieces up to the first that does not fit.
    pub fn info_text(&self) -> (s: String)
        ensures
            s@ == fitted(info_fragments(*self), INFO_TEXT_CAPACITY as int),
    {
        let mut frags: Vec<String> = Vec::new();
        push_piece(&mut frags, "SSID: ");
        push_piece(&mut frags, self.ssid);
        push_piece(&mut frags, "\nState: ");
        match self.state {
            ConnectionState::Disconnected => push_piece(&mut frags, "Disconnected"),
            ConnectionState::Connecting => push_piece(&mut frags, "Connecting"),
            ConnectionState::Connected => push_piece(&mut frags, "Connected"),
            ConnectionState::Sleeping => push_piece(&mut frags, "Sleeping"),
        }
        push_piece(&mut frags, "\nIP: ");
        match &self.ip_address {
            Some(a) => {
                push_decimal_piece(&mut frags, a[0]);
                push_piece(&mut frags, ".");
                push_decimal_piece(&mut frags, a[1]);
                push_piece(&mut frags, ".");
                push_decimal_piece(&mut frags, a[2]);
                push_piece(&mut frags, ".");
                push_decimal_piece(&mut frags, a[3]);
            },
            None => push_piece(&mut frags, "N/A"),
        }
        push_piece(&mut frags, "\nTZ: ");
        match &self.timezone_name {
            Some(name) => push_piece(&mut frags, tz_name_as_str(name)),
            None => push_piece(&mut frags, "N/A"),
        }
        push_piece(&mut frags, "\nSync Time: ");
        match &self.sync_time {
            Some(t) => {
                let text = t.to_clock_string();
                push_piece(&mut frags, text.as_str());
            },
            None => push_piece(&mut frags, "N/A"),
        }
        assert(views(frags@) =~= info_fragments(*self));
        fit_fragments(&frags, INFO_TEXT_CAPACITY)
    }
}

/// The text of the information screen always fits its 128-byte buffer.
pub proof fn law_info_text_fits(info: Info)
    ensures
        encode_utf8(fitted(info_fragments(info), INFO_TEXT_CAPACITY as int)).len()
            <= INFO_TEXT_CAPACITY,
{
    lemma_fitted_within_room(info_fragments(info), INFO_TEXT_CAPACITY as int);
}

impl Clone for Info {
    fn clone(&self) -> (c: Self)
        ensures
            c.same_content(*self),
            c.ssid == self.ssid,
    {
        Info {
            ssid: self.ssid,
            state: self.state,
            ip_address: self.ip_address,
            timezone_name: match &self.timezone_name {
                Some(name) => Some(tz_name_clone(name)),
                None => None,
            },
            sync_time: self.sync_time,
        }
    }
}

} // verus!
