//! The connection to the APRS internet service: logging in, what the server
//! says, and the order in which packets are sent and sent again.
use crate::config::AprsConfig;
use crate::text::{
    all_digits, begins_with, chars_of, contains, decimal, digits_value, has_part, holds_nothing,
    law_begins_with, law_decimal_reads_back, law_signed_reads_back, lower, push_decimal,
    push_signed_decimal, signed_decimal, starts_with, string_of, to_lower,
};
use vstd::prelude::*;

verus! {

/// The address of a server.
pub open spec fn address_text(config: AprsConfig) -> Seq<char> {
    config.server@ + ":"@ + decimal(config.port as nat)
}

/// Where to connect to.
pub fn server_address(config: &AprsConfig) -> (r: String)
    ensures
        r@ == address_text(*config),
{
    let mut out = config.server.clone();
    out.append(":");
    push_decimal(&mut out, config.port as u64);
    out
}

/// The line that logs in with a software version.
pub open spec fn login_text(config: AprsConfig, version: Seq<char>) -> Seq<char> {
    "user "@ + config.login_callsign@ + " pass "@ + signed_decimal(config.passcode as int)
        + " vers brew-server-aprs "@ + version + "\r\n"@
}

/// Makes the line that logs in.
pub fn login_line(config: &AprsConfig, version: &str) -> (r: String)
    ensures
        r@ == login_text(*config, version@),
{
    let mut out = "user ".to_owned();
    out.append(config.login_callsign.as_str());
    out.append(" pass ");
    push_signed_decimal(&mut out, config.passcode);
    out.append(" vers brew-server-aprs ");
    out.append(version);
    out.append("\r\n");
    out
}

/// A delay that was set, but at least one second.
pub open spec fn at_least_one(seconds: u64) -> u64 {
    if seconds == 0 {
        1
    } else {
        seconds
    }
}

/// The seconds to wait before connecting again.
pub fn reconnect_delay(config: &AprsConfig) -> (r: u64)
    ensures
        r == at_least_one(config.reconnect_seconds),
{
    if config.reconnect_seconds == 0 {
        1
    } else {
        config.reconnect_seconds
    }
}

/// The seconds to wait before loading the users again.
pub fn reload_delay(config: &AprsConfig) -> (r: u64)
    ensures
        r == at_least_one(config.users_reload_seconds),
{
    if config.users_reload_seconds == 0 {
        1
    } else {
        config.users_reload_seconds
    }
}

/// What a line of the server is.
#[derive(Debug, Clone, Copy, PartialEq, Eq, Structural)]
pub enum LineKind {
    /// Nothing but line ends.
    Blank,
    /// The answer to the login, which was not verified.
    LoginUnverified,
    /// The answer to the login, which was verified.
    LoginVerified,
    /// Another answer to the login.
    LoginResponse,
    /// A remark of the server.
    Remark,
    /// Anything else.
    Received,
}

/// A line of the server without its line end.
#[derive(Debug)]
pub struct ServerLine {
    pub kind: LineKind,
    pub response: String,
}

/// A line without the carriage returns and line feeds at its end.
pub open spec fn without_line_end(s: Seq<char>) -> Seq<char>
    decreases s.len(),
{
    if s.len() > 0 && (s.last() == '\r' || s.last() == '\n') {
        without_line_end(s.drop_last())
    } else {
        s
    }
}

/// What a line without its end is.
pub open spec fn line_kind(response: Seq<char>) -> LineKind {
    if response.len() == 0 {
        LineKind::Blank
    } else if begins_with(response, "# logresp"@) || begins_with(response, "#login"@) {
        if has_part(lower(response), "unverified"@) {
            LineKind::LoginUnverified
        } else if has_part(lower(response), "verified"@) {
            LineKind::LoginVerified
        } else {
            LineKind::LoginResponse
        }
    } else if begins_with(response, "#"@) {
        LineKind::Remark
    } else {
        LineKind::Received
    }
}

/// Tells what a line of the server is.
pub fn read_server_line(line: &str) -> (r: ServerLine)
    ensures
        r.response@ == without_line_end(line@),
        r.kind == line_kind(without_line_end(line@)),
{
    let chars = chars_of(line);
    let mut end: usize = chars.len();
    assert(chars@.subrange(0, end as int) == line@);
    while end > 0 && (chars[end - 1] == '\r' || chars[end - 1] == '\n')
        invariant
            0 <= end <= chars@.len(),
            without_line_end(chars@.subrange(0, end as int)) == without_line_end(line@),
        decreases end,
    {
        assert(chars@.subrange(0, end as int).drop_last() == chars@.subrange(0, end - 1));
        end -= 1;
    }
    let response = string_of(&chars, 0, end);
    let kind = if holds_nothing(response.as_str()) {
        LineKind::Blank
    } else if starts_with(response.as_str(), "# logresp") || starts_with(
        response.as_str(),
        "#login",
    ) {
        let small = to_lower(response.as_str());
        if contains(small.as_str(), "unverified") {
            LineKind::LoginUnverified
        } else if contains(small.as_str(), "verified") {
            LineKind::LoginVerified
        } else {
            LineKind::LoginResponse
        }
    } else if starts_with(response.as_str(), "#") {
        LineKind::Remark
    } else {
        LineKind::Received
    };
    ServerLine { kind, response }
}

/// Where the connection stands.
#[derive(Debug, Clone, Copy, PartialEq, Eq, Structural)]
pub enum Stage {
    Connecting,
    LoggingIn,
    FlushingLogin,
    Receiving,
    Writing,
    Flushing,
    Waiting,
    Stopped,
}

/// The connection, with the packet that is being sent or waits to be sent
/// again.
#[derive(Debug)]
pub struct Link {
    pub stage: Stage,
    pub in_hand: Option<String>,
}

/// What happened: an action came off or failed, a packet came to be sent, or
/// no more packets will come.
#[derive(Debug)]
pub enum LinkEvent {
    Done,
    Failed,
    Packet(String),
    Closed,
}

/// What is to be done next.
#[derive(Debug)]
pub enum LinkAction {
    /// Connect to this address.
    Connect(String),
    /// Write this line, which logs in.
    SendLogin(String),
    FlushLogin,
    Receive,
    /// Write this line.
    Write(String),
    Flush,
    /// Wait so many seconds.
    Sleep(u64),
    Stop,
}

/// A connection as mathematical values.
pub struct LinkView {
    pub stage: Stage,
    pub in_hand: Option<Seq<char>>,
}

/// An event as mathematical values.
pub enum EventView {
    Done,
    Failed,
    Packet(Seq<char>),
    Closed,
}

impl View for Link {
    type V = LinkView;

    open spec fn view(&self) -> LinkView {
        LinkView {
            stage: self.stage,
            in_hand: match self.in_hand {
                Some(p) => Some(p@),
                None => None,
            },
        }
    }
}

impl View for LinkEvent {
    type V = EventView;

    open spec fn view(&self) -> EventView {
        match *self {
            LinkEvent::Done => EventView::Done,
            LinkEvent::Failed => EventView::Failed,
            LinkEvent::Packet(p) => EventView::Packet(p@),
            LinkEvent::Closed => EventView::Closed,
        }
    }
}

impl LinkView {
    /// A connection that has not been made yet.
    pub open spec fn fresh() -> LinkView {
        LinkView { stage: Stage::Connecting, in_hand: None }
    }

    /// A packet is in hand while it is sent, and none while one is awaited.
    pub open spec fn consistent(self) -> bool {
        &&& self.stage == Stage::Writing || self.stage == Stage::Flushing ==> self.in_hand is Some
        &&& self.stage == Stage::Receiving || self.stage == Stage::Stopped ==> self.in_hand is None
    }

    /// The connection at another stage.
    pub open spec fn at(self, stage: Stage) -> LinkView {
        LinkView { stage, ..self }
    }

    /// The connection after an event. A failure leads to a new connection,
    /// with the packet still in hand. What cannot happen at a stage changes
    /// nothing.
    pub open spec fn after(self, event: EventView) -> LinkView {
        match (self.stage, event) {
            (Stage::Connecting, EventView::Done) => self.at(Stage::LoggingIn),
            (Stage::LoggingIn, EventView::Done) => self.at(Stage::FlushingLogin),
            (Stage::FlushingLogin, EventView::Done) => self.at(
                if self.in_hand is Some {
                    Stage::Writing
                } else {
                    Stage::Receiving
                },
            ),
            (Stage::Receiving, EventView::Packet(p)) => LinkView {
                stage: Stage::Writing,
                in_hand: Some(p),
            },
            (Stage::Receiving, EventView::Closed) => self.at(Stage::Stopped),
            (Stage::Writing, EventView::Done) => self.at(Stage::Flushing),
            (Stage::Flushing, EventView::Done) => LinkView {
                stage: Stage::Receiving,
                in_hand: None,
            },
            (Stage::Waiting, EventView::Done) => self.at(Stage::Connecting),
            (Stage::Connecting, EventView::Failed) => self.at(Stage::Waiting),
            (Stage::LoggingIn, EventView::Failed) => self.at(Stage::Waiting),
            (Stage::FlushingLogin, EventView::Failed) => self.at(Stage::Waiting),
            (Stage::Writing, EventView::Failed) => self.at(Stage::Waiting),
            (Stage::Flushing, EventView::Failed) => self.at(Stage::Waiting),
            _ => self,
        }
    }

    /// The packets in hand.
    pub open spec fn held(self) -> Seq<Seq<char>> {
        match self.in_hand {
            Some(p) => seq![p],
            None => seq![],
        }
    }

    /// The packets that an event hands to the connection.
    pub open spec fn accepts(self, event: EventView) -> Seq<Seq<char>> {
        match (self.stage, event) {
            (Stage::Receiving, EventView::Packet(p)) => seq![p],
            _ => seq![],
        }
    }

    /// The packets whose sending an event completes.
    pub open spec fn delivers(self, event: EventView) -> Seq<Seq<char>> {
        if self.stage == Stage::Flushing && event is Done {
            self.held()
        } else {
            seq![]
        }
    }

    /// The connection after a history of events.
    pub open spec fn after_all(self, events: Seq<EventView>) -> LinkView
        decreases events.len(),
    {
        if events.len() == 0 {
            self
        } else {
            self.after_all(events.drop_last()).after(events.last())
        }
    }

    /// The packets that a history hands to the connection.
    pub open spec fn accepts_all(self, events: Seq<EventView>) -> Seq<Seq<char>>
        decreases events.len(),
    {
        if events.len() == 0 {
            seq![]
        } else {
            self.accepts_all(events.drop_last()) + self.after_all(events.drop_last()).accepts(
                events.last(),
            )
        }
    }

    /// The packets whose sending a history completes.
    pub open spec fn delivers_all(self, events: Seq<EventView>) -> Seq<Seq<char>>
        decreases events.len(),
    {
        if events.len() == 0 {
            seq![]
        } else {
            self.delivers_all(events.drop_last()) + self.after_all(events.drop_last()).delivers(
                events.last(),
            )
        }
    }
}

impl Link {
    /// A connection that has not been made yet.
    pub fn new() -> (r: Self)
        ensures
            r@ == LinkView::fresh(),
            r@.consistent(),
    {
        Link { stage: Stage::Connecting, in_hand: None }
    }

    /// What is to be done next, by software of this version. A packet is
    /// written as a line of its own.
    pub fn next_action(&self, config: &AprsConfig, version: &str) -> (r: LinkAction)
        requires
            self@.consistent(),
        ensures
            self.stage == Stage::Connecting ==> (r matches LinkAction::Connect(address) && address@
                == address_text(*config)),
            self.stage == Stage::LoggingIn ==> (r matches LinkAction::SendLogin(line) && line@
                == login_text(*config, version@)),
            self.stage == Stage::FlushingLogin ==> r is FlushLogin,
            self.stage == Stage::Receiving ==> r is Receive,
            self.stage == Stage::Writing ==> (r matches LinkAction::Write(line) && line@
                == self@.in_hand->0 + "\r\n"@),
            self.stage == Stage::Flushing ==> r is Flush,
            self.stage == Stage::Waiting ==> r == LinkAction::Sleep(
                at_least_one(config.reconnect_seconds),
            ),
            self.stage == Stage::Stopped ==> r is Stop,
    {
        match self.stage {
            Stage::Connecting => LinkAction::Connect(server_address(config)),
            Stage::LoggingIn => LinkAction::SendLogin(login_line(config, version)),
            Stage::FlushingLogin => LinkAction::FlushLogin,
            Stage::Receiving => LinkAction::Receive,
            Stage::Writing => {
                match &self.in_hand {
                    Some(packet) => {
                        let mut line = packet.clone();
                        line.append("\r\n");
                        LinkAction::Write(line)
                    },
                    None => LinkAction::Stop,
                }
            },
            Stage::Flushing => LinkAction::Flush,
            Stage::Waiting => LinkAction::Sleep(reconnect_delay(config)),
            Stage::Stopped => LinkAction::Stop,
        }
    }

    /// Takes note of what happened.
    pub fn step(&mut self, event: LinkEvent)
        requires
            old(self)@.consistent(),
        ensures
            final(self)@ == old(self)@.after(event@),
            final(self)@.consistent(),
    {
        match event {
            LinkEvent::Done => {
                match self.stage {
                    Stage::Connecting => {
                        self.stage = Stage::LoggingIn;
                    },
                    Stage::LoggingIn => {
                        self.stage = Stage::FlushingLogin;
                    },
                    Stage::FlushingLogin => {
                        self.stage = if self.in_hand.is_some() {
                            Stage::Writing
                        } else {
                            Stage::Receiving
                        };
                    },
                    Stage::Writing => {
                        self.stage = Stage::Flushing;
                    },
                    Stage::Flushing => {
                        self.stage = Stage::Receiving;
                        self.in_hand = None;
                    },
                    Stage::Waiting => {
                        self.stage = Stage::Connecting;
                    },
                    Stage::Receiving => {},
                    Stage::Stopped => {},
                }
            },
            LinkEvent::Failed => {
                match self.stage {
                    Stage::Connecting
                    | Stage::LoggingIn
                    | Stage::FlushingLogin
                    | Stage::Writing
                    | Stage::Flushing => {
                        self.stage = Stage::Waiting;
                    },
                    _ => {},
                }
            },
            LinkEvent::Packet(packet) => {
                if self.stage == Stage::Receiving {
                    self.stage = Stage::Writing;
                    self.in_hand = Some(packet);
                }
            },
            LinkEvent::Closed => {
                if self.stage == Stage::Receiving {
                    self.stage = Stage::Stopped;
                }
            },
        }
    }
}

/// No event breaks the consistency of a connection.
pub proof fn law_link_stays_consistent(link: LinkView, events: Seq<EventView>)
    requires
        link.consistent(),
    ensures
        link.after_all(events).consistent(),
    decreases events.len(),
{
    if events.len() > 0 {
        law_link_stays_consistent(link, events.drop_last());
    }
}

/// Whatever happens, no packet is lost, sent out of turn or counted as sent
/// twice: what was in hand and what was accepted are what was delivered and
/// what is still in hand, in the same order.
pub proof fn law_packets_kept_in_order(link: LinkView, events: Seq<EventView>)
    requires
        link.consistent(),
    ensures
        link.held() + link.accepts_all(events) == link.delivers_all(events) + link.after_all(
            events,
        ).held(),
    decreases events.len(),
{
    if events.len() == 0 {
        assert(link.held() + link.accepts_all(events) =~= link.delivers_all(events)
            + link.held());
    } else {
        let earlier = events.drop_last();
        let now = link.after_all(earlier);
        let event = events.last();
        law_packets_kept_in_order(link, earlier);
        law_link_stays_consistent(link, earlier);
        assert(now.held() + now.accepts(event) =~= now.delivers(event) + now.after(event).held());
        assert(link.held() + link.accepts_all(events) =~= (link.held() + link.accepts_all(earlier))
            + now.accepts(event));
        assert(link.delivers_all(events) + now.after(event).held() =~= link.delivers_all(earlier)
            + (now.delivers(event) + now.after(event).held()));
        assert((link.delivers_all(earlier) + now.held()) + now.accepts(event)
            =~= link.delivers_all(earlier) + (now.held() + now.accepts(event)));
    }
}

/// A packet that could not be sent is the first to be written on the next
/// connection: once connected and logged in again, the link writes it before
/// it takes another.
pub proof fn law_failed_packet_first(link: LinkView)
    requires
        link.consistent(),
        link.stage == Stage::Writing || link.stage == Stage::Flushing,
    ensures
        link.after_all(
            seq![
                EventView::Failed,
                EventView::Done,
                EventView::Done,
                EventView::Done,
                EventView::Done,
            ],
        ) == link.at(Stage::Writing),
{
    let events = seq![
        EventView::Failed,
        EventView::Done,
        EventView::Done,
        EventView::Done,
        EventView::Done,
    ];
    reveal_with_fuel(LinkView::after_all, 6);
    assert(events.drop_last() =~= seq![
        EventView::Failed,
        EventView::Done,
        EventView::Done,
        EventView::Done,
    ]);
    assert(events.drop_last().drop_last() =~= seq![
        EventView::Failed,
        EventView::Done,
        EventView::Done,
    ]);
    assert(events.drop_last().drop_last().drop_last() =~= seq![EventView::Failed, EventView::Done]);
    assert(events.drop_last().drop_last().drop_last().drop_last() =~= seq![EventView::Failed]);
}

/// The stages on the way to a connection that is logged in.
pub open spec fn reconnecting(stage: Stage) -> bool {
    stage == Stage::Waiting || stage == Stage::Connecting || stage == Stage::LoggingIn || stage
        == Stage::FlushingLogin
}

/// However many attempts to connect fail, the packet in hand stays in hand,
/// no other is taken and none is counted as sent; and the first thing that the
/// link does once it is logged in is to write that packet.
pub proof fn law_packet_outlives_failures(link: LinkView, events: Seq<EventView>)
    requires
        link.in_hand is Some,
        reconnecting(link.stage),
        forall|i: int|
            0 <= i < events.len() ==> reconnecting(
                (#[trigger] link.after_all(events.take(i))).stage,
            ),
    ensures
        link.after_all(events).in_hand == link.in_hand,
        reconnecting(link.after_all(events).stage) || link.after_all(events).stage
            == Stage::Writing,
        link.accepts_all(events) == Seq::<Seq<char>>::empty(),
        link.delivers_all(events) == Seq::<Seq<char>>::empty(),
    decreases events.len(),
{
    if events.len() > 0 {
        let earlier = events.drop_last();
        let n = earlier.len() as int;
        assert(events.take(n) =~= earlier);
        assert(reconnecting(link.after_all(events.take(n)).stage));
        assert forall|i: int| 0 <= i < earlier.len() implies reconnecting(
            (#[trigger] link.after_all(earlier.take(i))).stage,
        ) by {
            assert(earlier.take(i) =~= events.take(i));
            assert(reconnecting(link.after_all(events.take(i)).stage));
        }
        law_packet_outlives_failures(link, earlier);
        assert(link.accepts_all(events) =~= Seq::<Seq<char>>::empty());
        assert(link.delivers_all(events) =~= Seq::<Seq<char>>::empty());
    }
}

/// A failure while a packet is written or flushed, and then any number of
/// failed attempts to connect, end with that packet written first.
pub proof fn law_failed_packet_stays_first(link: LinkView, events: Seq<EventView>)
    requires
        link.consistent(),
        link.stage == Stage::Writing || link.stage == Stage::Flushing,
        forall|i: int|
            0 <= i < events.len() ==> reconnecting(
                (#[trigger] link.after(EventView::Failed).after_all(events.take(i))).stage,
            ),
        !reconnecting(link.after(EventView::Failed).after_all(events).stage),
    ensures
        link.after(EventView::Failed).after_all(events) == link.at(Stage::Writing),
{
    law_packet_outlives_failures(link.after(EventView::Failed), events);
}

/// A connection that has stopped does nothing more.
pub proof fn law_stopped_for_good(link: LinkView, events: Seq<EventView>)
    requires
        link.stage == Stage::Stopped,
    ensures
        link.after_all(events) == link,
    decreases events.len(),
{
    if events.len() > 0 {
        law_stopped_for_good(link, events.drop_last());
    }
}

/// An answer to the login is never taken both for verified and unverified:
/// whatever says "unverified" also says "verified", and counts as unverified.
pub proof fn law_unverified_wins(response: Seq<char>)
    requires
        begins_with(response, "# logresp"@) || begins_with(response, "#login"@),
        has_part(lower(response), "unverified"@),
    ensures
        line_kind(response) == LineKind::LoginUnverified,
        has_part(lower(response), "verified"@),
{
    reveal_strlit("# logresp");
    reveal_strlit("#login");
    reveal_strlit("unverified");
    reveal_strlit("verified");
    let text = lower(response);
    let at = choose|at: int| crate::text::stands_at(text, "unverified"@, at);
    assert("unverified"@.subrange(2, 10) =~= "verified"@);
    assert(text.subrange(at + 2, at + 10) =~= text.subrange(at, at + 10).subrange(2, 10));
    assert(crate::text::stands_at(text, "verified"@, at + 2));
}

/// The word is the number in decimal: its digits without needless zeros, with
/// a minus sign before them exactly where the number is negative.
pub open spec fn spells(word: Seq<char>, number: int) -> bool {
    if number < 0 {
        &&& word.len() >= 2
        &&& word[0] == '-'
        &&& word[1] != '0'
        &&& all_digits(word.drop_first())
        &&& digits_value(word.drop_first()) == -number
    } else {
        &&& word.len() >= 1
        &&& word.len() > 1 ==> word[0] != '0'
        &&& all_digits(word)
        &&& digits_value(word) == number
    }
}

/// A login gives the call sign, the passcode as a number that reads back as
/// what was configured, the software and its version, on a line of its own.
pub proof fn law_login_line(config: AprsConfig, version: Seq<char>)
    ensures
        exists|word: Seq<char>| #[trigger]
            spells(word, config.passcode as int) && login_text(config, version) == "user "@
                + config.login_callsign@ + " pass "@ + word + " vers brew-server-aprs "@ + version
                + "\r\n"@,
{
    law_signed_reads_back(config.passcode as int);
    assert(spells(signed_decimal(config.passcode as int), config.passcode as int));
}

/// Two logins under one call sign are alike only where the passcode is.
pub proof fn law_login_tells_passcodes_apart(
    a: AprsConfig,
    b: AprsConfig,
    version: Seq<char>,
)
    requires
        login_text(a, version) == login_text(b, version),
        a.login_callsign@ == b.login_callsign@,
    ensures
        a.passcode == b.passcode,
{
    let front = "user "@ + a.login_callsign@ + " pass "@;
    let back = " vers brew-server-aprs "@ + version + "\r\n"@;
    let x = signed_decimal(a.passcode as int);
    let y = signed_decimal(b.passcode as int);
    assert(login_text(a, version) =~= front + x + back);
    assert(login_text(b, version) =~= front + y + back);
    assert(x.len() == y.len());
    let at = front.len() as int;
    assert(login_text(a, version).subrange(at, at + x.len()) =~= x);
    assert(login_text(b, version).subrange(at, at + x.len()) =~= y);
    law_signed_reads_back(a.passcode as int);
    law_signed_reads_back(b.passcode as int);
}

/// The address of a server is its name, a colon and its port.
pub proof fn law_address(config: AprsConfig)
    ensures
        exists|word: Seq<char>| #[trigger]
            spells(word, config.port as int) && address_text(config) == config.server@ + ":"@
                + word,
{
    law_decimal_reads_back(config.port as nat);
    assert(spells(decimal(config.port as nat), config.port as int));
}

/// A delay is what was set, unless that is nothing.
pub proof fn law_delay(seconds: u64)
    ensures
        at_least_one(seconds) >= 1,
        seconds >= 1 ==> at_least_one(seconds) == seconds,
        seconds == 0 ==> at_least_one(seconds) == 1,
{
}

/// The end of a line is all carriage returns and line feeds behind its last
/// other character, and nothing else.
pub proof fn law_without_line_end(s: Seq<char>)
    ensures
        without_line_end(s).is_prefix_of(s),
        forall|i: int|
            without_line_end(s).len() <= i < s.len() ==> #[trigger] s[i] == '\r' || s[i] == '\n',
        without_line_end(s).len() > 0 ==> {
            let last = without_line_end(s)[without_line_end(s).len() - 1];
            last != '\r' && last != '\n'
        },
    decreases s.len(),
{
    if s.len() > 0 && (s.last() == '\r' || s.last() == '\n') {
        let rest = s.drop_last();
        law_without_line_end(rest);
        let t = without_line_end(s);
        assert(t =~= s.take(t.len() as int)) by {
            assert(t =~= rest.take(t.len() as int));
        }
        assert forall|i: int| t.len() <= i < s.len() implies #[trigger] s[i] == '\r' || s[i]
            == '\n' by {
            if i < s.len() - 1 {
                assert(rest[i] == s[i]);
            }
        }
    }
}

/// What a line is shows at its front: nothing, a number sign or anything
/// else; an answer to the login shows more of itself there and tells in any
/// case of letters whether the login was verified.
pub proof fn law_line_kind(response: Seq<char>)
    ensures
        line_kind(response) == LineKind::Blank <==> response.len() == 0,
        line_kind(response) == LineKind::Received <==> response.len() > 0 && response[0] != '#',
        ({
            let login = begins_with(response, "# logresp"@) || begins_with(response, "#login"@);
            let kind = line_kind(response);
            &&& kind == LineKind::Remark <==> response.len() > 0 && response[0] == '#' && !login
            &&& kind == LineKind::LoginUnverified <==> login && has_part(
                lower(response),
                "unverified"@,
            )
            &&& kind == LineKind::LoginVerified <==> login && has_part(
                lower(response),
                "verified"@,
            ) && !has_part(lower(response), "unverified"@)
            &&& kind == LineKind::LoginResponse <==> login && !has_part(
                lower(response),
                "verified"@,
            ) && !has_part(lower(response), "unverified"@)
        }),
{
    reveal_strlit("# logresp");
    reveal_strlit("#login");
    reveal_strlit("#");
    if begins_with(response, "# logresp"@) {
        law_begins_with("# logresp"@, response, response);
        assert(response[0] == '#');
    }
    if begins_with(response, "#login"@) {
        law_begins_with("#login"@, response, response);
        assert(response[0] == '#');
    }
    if response.len() > 0 {
        assert(response.take(1) =~= seq![response[0]]);
        assert("#"@ =~= seq!['#']);
        assert(begins_with(response, "#"@) == (response[0] == '#')) by {
            if begins_with(response, "#"@) {
                law_begins_with("#"@, response, response);
            }
            if response[0] == '#' {
                assert(response.take(1) =~= "#"@);
            }
        }
    }
    if begins_with(response, "# logresp"@) || begins_with(response, "#login"@) {
        if has_part(lower(response), "unverified"@) {
            law_unverified_wins(response);
        }
    }
}

/// What each thing that came off leads to.
pub proof fn law_done_leads_on(link: LinkView)
    ensures
        ({
            let next = link.after(EventView::Done);
            &&& link.stage == Stage::Connecting ==> next.stage == Stage::LoggingIn
            &&& link.stage == Stage::LoggingIn ==> next.stage == Stage::FlushingLogin
            &&& link.stage == Stage::FlushingLogin && link.in_hand is Some ==> next.stage
                == Stage::Writing
            &&& link.stage == Stage::FlushingLogin && link.in_hand is None ==> next.stage
                == Stage::Receiving
            &&& link.stage == Stage::Writing ==> next.stage == Stage::Flushing
            &&& link.stage == Stage::Flushing ==> next.stage == Stage::Receiving && next.in_hand
                is None
            &&& link.stage == Stage::Waiting ==> next.stage == Stage::Connecting
            &&& link.stage != Stage::Flushing ==> next.in_hand == link.in_hand
            &&& link.stage == Stage::Receiving || link.stage == Stage::Stopped ==> next == link
        }),
{
}

/// A failure never loses the packet in hand, and leads to a wait and a new
/// connection wherever something can fail.
pub proof fn law_failure_leads_to_wait(link: LinkView)
    ensures
        link.after(EventView::Failed).in_hand == link.in_hand,
        link.after(EventView::Failed).stage == if link.stage == Stage::Receiving || link.stage
            == Stage::Stopped {
            link.stage
        } else {
            Stage::Waiting
        },
{
}

/// A packet is taken only where one is awaited, and is then in hand and
/// written next; the end of the packets stops the link only there.
pub proof fn law_packet_taken_when_awaited(link: LinkView, packet: Seq<char>)
    ensures
        link.stage == Stage::Receiving ==> {
            &&& link.after(EventView::Packet(packet)).in_hand == Some(packet)
            &&& link.after(EventView::Packet(packet)).stage == Stage::Writing
            &&& link.accepts(EventView::Packet(packet)) == seq![packet]
            &&& link.after(EventView::Closed).stage == Stage::Stopped
            &&& link.after(EventView::Closed).in_hand == link.in_hand
        },
        link.stage != Stage::Receiving ==> {
            &&& link.after(EventView::Packet(packet)) == link
            &&& link.after(EventView::Closed) == link
            &&& link.accepts(EventView::Packet(packet)).len() == 0
        },
        link.accepts(EventView::Done).len() == 0,
        link.accepts(EventView::Failed).len() == 0,
        link.accepts(EventView::Closed).len() == 0,
{
}

/// A packet counts as sent where its flush came off, and nowhere else.
pub proof fn law_sent_when_flushed(link: LinkView, event: EventView)
    ensures
        link.stage == Stage::Flushing && event is Done ==> link.delivers(event)
            == match link.in_hand {
            Some(packet) => seq![packet],
            None => Seq::<Seq<char>>::empty(),
        },
        !(link.stage == Stage::Flushing && event is Done) ==> link.delivers(event).len() == 0,
{
}

/// Links and events are shown as what they are.
pub proof fn law_link_views(link: Link, event: LinkEvent)
    ensures
        link@.stage == link.stage,
        link@.in_hand is Some <==> link.in_hand is Some,
        link.in_hand matches Some(p) ==> link@.in_hand == Some(p@),
        event is Done <==> event@ is Done,
        event is Failed <==> event@ is Failed,
        event is Closed <==> event@ is Closed,
        event matches LinkEvent::Packet(p) ==> event@ == EventView::Packet(p@),
{
}

/// A new link holds no packet and connects first.
pub proof fn law_fresh_link()
    ensures
        LinkView::fresh().stage == Stage::Connecting,
        LinkView::fresh().in_hand is None,
        LinkView::fresh().consistent(),
{
}

} // verus!
