//! The APRS gateway: who reports, and how a reported position is put on the
//! APRS internet service.
use crate::config::AprsConfig;
use crate::lip::{
    decode_short_lip, decoded, law_decoded_in_range, LipError, LipPosition, UNITS_PER_DEGREE,
};
use crate::text::{
    all_digits, ascii_upper, decimal, digits_value, holds_nothing, law_ascii_case,
    law_decimal_reads_back, law_padded_width, law_padding, law_trimmed, push_padded_decimal,
    same_text, to_upper, trim, trimmed, trimmed_end, trimmed_start, trims_to, upper, white_space,
    zero_padded,
};
use std::collections::HashMap;
use vstd::prelude::*;

verus! {

/// A record of the users file.
#[derive(Debug)]
pub struct UserRecord {
    pub radio_id: u32,
    pub callsign: String,
    pub fname: String,
}

/// A user whose positions are passed on.
#[derive(Debug)]
pub struct AprsUser {
    pub callsign: String,
    pub first_name: String,
}

/// A user as mathematical values.
pub struct UserView {
    pub callsign: Seq<char>,
    pub first_name: Seq<char>,
}

impl View for AprsUser {
    type V = UserView;

    open spec fn view(&self) -> UserView {
        UserView { callsign: self.callsign@, first_name: self.first_name@ }
    }
}

/// A call sign as it is compared and sent: without white space at its ends,
/// in capitals.
pub open spec fn plain_callsign(s: Seq<char>) -> Seq<char> {
    upper(trimmed(s))
}

/// The record gives a call sign.
pub open spec fn usable(record: UserRecord) -> bool {
    plain_callsign(record.callsign@).len() > 0
}

/// The record gives a user with this number.
pub open spec fn gives_user(record: UserRecord, id: u32) -> bool {
    usable(record) && record.radio_id == id
}

/// The user of a record.
pub open spec fn user_of(record: UserRecord) -> UserView {
    UserView { callsign: plain_callsign(record.callsign@), first_name: trimmed(record.fname@) }
}

/// The users of a file by their radio numbers. Records without a call sign
/// are passed over; of several records with one number the last holds.
pub open spec fn users_of(records: Seq<UserRecord>) -> Map<u32, UserView>
    decreases records.len(),
{
    if records.len() == 0 {
        Map::empty()
    } else {
        let before = users_of(records.drop_last());
        if usable(records.last()) {
            before.insert(records.last().radio_id, user_of(records.last()))
        } else {
            before
        }
    }
}

/// A table of users as mathematical values.
pub open spec fn user_views(users: Map<u32, AprsUser>) -> Map<u32, UserView> {
    users.map_values(|u: AprsUser| u@)
}

/// Puts a call sign in the form in which it is compared and sent.
fn to_plain_callsign(s: &str) -> (r: String)
    ensures
        r@ == plain_callsign(s@),
{
    to_upper(trim(s).as_str())
}

/// Makes the table of users from the records of a file.
pub fn load_users(records: &Vec<UserRecord>) -> (r: HashMap<u32, AprsUser>)
    ensures
        user_views(r@) == users_of(records@),
{
    let mut table: HashMap<u32, AprsUser> = HashMap::new();
    let n = records.len();
    let mut i: usize = 0;
    assert(user_views(table@) =~= users_of(records@.take(0)));
    while i < n
        invariant
            0 <= i <= n == records@.len(),
            user_views(table@) == users_of(records@.take(i as int)),
        decreases n - i,
    {
        let record = &records[i];
        let ghost before = table@;
        let callsign = to_plain_callsign(record.callsign.as_str());
        if !holds_nothing(callsign.as_str()) {
            let user = AprsUser { callsign, first_name: trim(record.fname.as_str()) };
            table.insert(record.radio_id, user);
            assert(user_views(table@) =~= user_views(before).insert(record.radio_id, user@));
        }
        i += 1;
        assert(records@.take(i as int).drop_last() == records@.take(i - 1));
    }
    assert(records@.take(n as int) == records@);
    table
}

/// `num / den` to the nearest whole number, to the even one of two that are
/// equally near.
pub open spec fn nearest(num: nat, den: nat) -> nat {
    let below = num / den;
    let rest = num % den;
    if 2 * rest > den || (2 * rest == den && below % 2 == 1) {
        below + 1
    } else {
        below
    }
}

/// The hundredths of a minute in a part of a degree.
pub open spec fn minute_hundredths(part: nat) -> nat {
    nearest(part * 6000, UNITS_PER_DEGREE as nat)
}

/// The magnitude of a coordinate.
pub open spec fn magnitude(value: int) -> nat {
    if value < 0 {
        (-value) as nat
    } else {
        value as nat
    }
}

/// A coordinate as whole degrees in `width` digits and minutes with two
/// decimals.
pub open spec fn coordinate(value: int, width: nat) -> Seq<char> {
    let hundredths = minute_hundredths(magnitude(value) % UNITS_PER_DEGREE as nat);
    zero_padded(decimal(magnitude(value) / UNITS_PER_DEGREE as nat), width) + zero_padded(
        decimal(hundredths / 100),
        2,
    ) + seq!['.'] + zero_padded(decimal(hundredths % 100), 2)
}

/// Where a position is: the two coordinates, each with its hemisphere, and
/// the two characters of the symbol behind them.
pub open spec fn place(latitude: int, longitude: int, symbol_table: char, symbol: char) -> Seq<
    char,
> {
    coordinate(latitude, 2) + seq![
        if latitude >= 0 {
            'N'
        } else {
            'S'
        },
        symbol_table,
    ] + coordinate(longitude, 3) + seq![
        if longitude >= 0 {
            'E'
        } else {
            'W'
        },
        symbol,
    ]
}

/// The path of a packet: the gateway's own packets come over TCP/IP, all
/// others through it.
pub open spec fn packet_path(source: Seq<char>, gateway: Seq<char>) -> Seq<char> {
    if source == gateway {
        "TCPIP*"@
    } else {
        "qAR,"@ + gateway
    }
}

/// A position packet.
pub open spec fn position_packet(
    callsign: Seq<char>,
    gateway: Seq<char>,
    latitude: int,
    longitude: int,
    symbol_table: char,
    symbol: char,
) -> Seq<char> {
    plain_callsign(callsign) + ">APRS,"@ + packet_path(
        plain_callsign(callsign),
        plain_callsign(gateway),
    ) + ":!"@ + place(latitude, longitude, symbol_table, symbol)
}

/// Appends a coordinate.
fn push_coordinate(out: &mut String, value: i32, width: usize)
    ensures
        final(out)@ == old(out)@ + coordinate(value as int, width as nat),
{
    let size: u64 = if value < 0 {
        (-(value as i64)) as u64
    } else {
        value as u64
    };
    let unit: u64 = UNITS_PER_DEGREE as u64;
    let scaled: u64 = (size % unit) * 6000;
    let below: u64 = scaled / unit;
    let rest: u64 = scaled % unit;
    let hundredths: u64 = if 2 * rest > unit || (2 * rest == unit && below % 2 == 1) {
        below + 1
    } else {
        below
    };
    push_padded_decimal(out, size / unit, width);
    push_padded_decimal(out, hundredths / 100, 2);
    out.push('.');
    push_padded_decimal(out, hundredths % 100, 2);
    assert(out@ =~= old(out)@ + coordinate(value as int, width as nat));
}

/// Appends where a position is.
fn push_place(out: &mut String, latitude: i32, longitude: i32, symbol_table: char, symbol: char)
    ensures
        final(out)@ == old(out)@ + place(latitude as int, longitude as int, symbol_table, symbol),
{
    push_coordinate(out, latitude, 2);
    out.push(
        if latitude >= 0 {
            'N'
        } else {
            'S'
        },
    );
    out.push(symbol_table);
    push_coordinate(out, longitude, 3);
    out.push(
        if longitude >= 0 {
            'E'
        } else {
            'W'
        },
    );
    out.push(symbol);
    assert(out@ =~= old(out)@ + place(latitude as int, longitude as int, symbol_table, symbol));
}

/// Writes a position as an APRS packet. The coordinates are in units of
/// 2^-23 degrees.
pub fn format_aprs_position(
    callsign: &str,
    gateway_callsign: &str,
    latitude: i32,
    longitude: i32,
    symbol_table: char,
    symbol: char,
) -> (r: String)
    ensures
        r@ == position_packet(
            callsign@,
            gateway_callsign@,
            latitude as int,
            longitude as int,
            symbol_table,
            symbol,
        ),
{
    let source = to_plain_callsign(callsign);
    let gateway = to_plain_callsign(gateway_callsign);
    let mut out = source.clone();
    out.append(">APRS,");
    if same_text(source.as_str(), gateway.as_str()) {
        out.append("TCPIP*");
    } else {
        out.append("qAR,");
        out.append(gateway.as_str());
    }
    assert(out@ =~= source@ + ">APRS,"@ + packet_path(source@, gateway@));
    out.append(":!");
    push_place(&mut out, latitude, longitude, symbol_table, symbol);
    out
}

/// What becomes of a location report.
#[derive(Debug)]
pub enum LipOutcome {
    /// No user has the radio number of the sender.
    UnknownSource,
    /// The report cannot be read.
    Undecodable(LipError),
    /// The report holds no position: both coordinates are zero.
    NoPosition,
    /// The coordinates are no place on earth.
    OutOfRange,
    /// This packet is to be sent.
    Packet(String),
}

/// What becomes of a report, as mathematical values.
pub enum OutcomeView {
    UnknownSource,
    Undecodable(LipError),
    NoPosition,
    OutOfRange,
    Packet(Seq<char>),
}

impl View for LipOutcome {
    type V = OutcomeView;

    open spec fn view(&self) -> OutcomeView {
        match *self {
            LipOutcome::UnknownSource => OutcomeView::UnknownSource,
            LipOutcome::Undecodable(e) => OutcomeView::Undecodable(e),
            LipOutcome::NoPosition => OutcomeView::NoPosition,
            LipOutcome::OutOfRange => OutcomeView::OutOfRange,
            LipOutcome::Packet(p) => OutcomeView::Packet(p@),
        }
    }
}

/// The coordinates are a place on earth.
pub open spec fn on_earth(latitude: int, longitude: int) -> bool {
    &&& -90 * UNITS_PER_DEGREE <= latitude <= 90 * UNITS_PER_DEGREE
    &&& -180 * UNITS_PER_DEGREE <= longitude <= 180 * UNITS_PER_DEGREE
}

/// What becomes of a position that a user reported.
pub open spec fn position_outcome(
    callsign: Seq<char>,
    config: AprsConfig,
    position: LipPosition,
) -> OutcomeView {
    if position.latitude == 0 && position.longitude == 0 {
        OutcomeView::NoPosition
    } else if !on_earth(position.latitude as int, position.longitude as int) {
        OutcomeView::OutOfRange
    } else {
        OutcomeView::Packet(
            position_packet(
                callsign,
                config.login_callsign@,
                position.latitude as int,
                position.longitude as int,
                config.symbol_table,
                config.symbol,
            ),
        )
    }
}

/// What becomes of a location report.
pub open spec fn report_outcome(
    users: Map<u32, UserView>,
    config: AprsConfig,
    source_issi: u32,
    data: Seq<u8>,
    length_bits: u16,
) -> OutcomeView {
    if !users.contains_key(source_issi) {
        OutcomeView::UnknownSource
    } else {
        match decoded(data, length_bits) {
            Err(e) => OutcomeView::Undecodable(e),
            Ok(position) => position_outcome(users[source_issi].callsign, config, position),
        }
    }
}

/// Decides what becomes of a position that a user reported.
pub fn report_position(callsign: &str, config: &AprsConfig, position: &LipPosition) -> (r:
    LipOutcome)
    ensures
        r@ == position_outcome(callsign@, *config, *position),
{
    let latitude = position.latitude;
    let longitude = position.longitude;
    if latitude == 0 && longitude == 0 {
        return LipOutcome::NoPosition;
    }
    let unit: i64 = UNITS_PER_DEGREE as i64;
    let north = latitude as i64;
    let east = longitude as i64;
    if north < -90 * unit || north > 90 * unit || east < -180 * unit || east > 180 * unit {
        return LipOutcome::OutOfRange;
    }
    LipOutcome::Packet(
        format_aprs_position(
            callsign,
            config.login_callsign.as_str(),
            latitude,
            longitude,
            config.symbol_table,
            config.symbol,
        ),
    )
}

/// The gateway: its settings, and the users whose positions it passes on.
#[derive(Debug)]
pub struct AprsGateway {
    pub users: HashMap<u32, AprsUser>,
    pub config: AprsConfig,
}

impl AprsGateway {
    /// A gateway that knows no users yet.
    pub fn new(config: AprsConfig) -> (r: Self)
        ensures
            user_views(r.users@) == Map::<u32, UserView>::empty(),
            r.config == config,
    {
        let r = AprsGateway { users: HashMap::new(), config };
        assert(user_views(r.users@) =~= Map::<u32, UserView>::empty());
        r
    }

    /// Takes over the records of the users file, and tells how many users
    /// there are now. Where the file could not be loaded, the users stay as
    /// they are.
    pub fn reload_users(&mut self, loaded: Option<Vec<UserRecord>>) -> (r: Option<usize>)
        ensures
            final(self).config == old(self).config,
            match loaded {
                Some(records) => {
                    &&& user_views(final(self).users@) == users_of(records@)
                    &&& r == Some(users_of(records@).dom().len() as usize)
                },
                None => final(self).users@ == old(self).users@ && r == None::<usize>,
            },
    {
        match loaded {
            Some(records) => {
                let users = load_users(&records);
                let count = users.len();
                proof {
                    assert(users@.dom() =~= user_views(users@).dom());
                }
                self.users = users;
                Some(count)
            },
            None => None,
        }
    }

    /// Decides what becomes of a location report.
    pub fn handle_lip(&self, source_issi: u32, data: &[u8], length_bits: u16) -> (r: LipOutcome)
        ensures
            r@ == report_outcome(
                user_views(self.users@),
                self.config,
                source_issi,
                data@,
                length_bits,
            ),
    {
        match self.users.get(&source_issi) {
            None => LipOutcome::UnknownSource,
            Some(user) => {
                assert(user_views(self.users@)[source_issi] == user@);
                match decode_short_lip(data, length_bits) {
                    Err(e) => LipOutcome::Undecodable(e),
                    Ok(position) => report_position(
                        user.callsign.as_str(),
                        &self.config,
                        &position,
                    ),
                }
            },
        }
    }
}

/// A report that can be read is never refused for its coordinates.
pub proof fn law_report_on_earth(
    users: Map<u32, UserView>,
    config: AprsConfig,
    source_issi: u32,
    data: Seq<u8>,
    length_bits: u16,
)
    ensures
        report_outcome(users, config, source_issi, data, length_bits) !is OutOfRange,
{
    if decoded(data, length_bits) is Ok {
        law_decoded_in_range(data, length_bits);
    }
}

/// A packet is sent exactly for a known sender whose report can be read and
/// does not stand at zero north and zero east.
pub proof fn law_packet_iff(
    users: Map<u32, UserView>,
    config: AprsConfig,
    source_issi: u32,
    data: Seq<u8>,
    length_bits: u16,
)
    ensures
        report_outcome(users, config, source_issi, data, length_bits) is Packet <==> {
            &&& users.contains_key(source_issi)
            &&& decoded(data, length_bits) matches Ok(p)
            &&& !(p.latitude == 0 && p.longitude == 0)
        },
{
    law_report_on_earth(users, config, source_issi, data, length_bits);
}

/// The table holds the user of the last usable record with a number.
pub proof fn law_last_usable_record_holds(records: Seq<UserRecord>, i: int)
    requires
        0 <= i < records.len(),
        usable(records[i]),
        forall|j: int|
            i < j < records.len() ==> !gives_user(#[trigger] records[j], records[i].radio_id),
    ensures
        users_of(records).contains_key(records[i].radio_id),
        users_of(records)[records[i].radio_id] == user_of(records[i]),
    decreases records.len(),
{
    if i < records.len() - 1 {
        assert(!gives_user(records[records.len() - 1], records[i].radio_id));
        law_last_usable_record_holds(records.drop_last(), i);
    }
}

/// Every user of a table comes from a usable record with its number.
pub proof fn law_users_come_from_records(records: Seq<UserRecord>, id: u32)
    requires
        users_of(records).contains_key(id),
    ensures
        exists|i: int| 0 <= i < records.len() && gives_user(#[trigger] records[i], id),
    decreases records.len(),
{
    if gives_user(records.last(), id) {
        assert(gives_user(records[records.len() - 1], id));
    } else {
        let front = records.drop_last();
        law_users_come_from_records(front, id);
        let i = choose|i: int| 0 <= i < front.len() && gives_user(#[trigger] front[i], id);
        assert(gives_user(records[i], id));
    }
}

/// Every user of a table has a call sign, in the form in which it is sent.
pub proof fn law_users_have_callsigns(records: Seq<UserRecord>, id: u32)
    requires
        users_of(records).contains_key(id),
    ensures
        users_of(records)[id].callsign.len() > 0,
        plain_callsign(users_of(records)[id].callsign) == users_of(records)[id].callsign,
    decreases records.len(),
{
    if usable(records.last()) && records.last().radio_id == id {
        law_plain_callsign_stable(records.last().callsign@);
    } else {
        law_users_have_callsigns(records.drop_last(), id);
    }
}

/// White space is no letter: capitals do not change where it stands.
proof fn lemma_upper_keeps_space(c: char)
    ensures
        white_space(ascii_upper(c)) == white_space(c),
{
}

/// What is trimmed has no white space at its ends.
proof fn lemma_trimmed_ends(s: Seq<char>)
    ensures
        trimmed(s).len() > 0 ==> !white_space(trimmed(s).first()) && !white_space(
            trimmed(s).last(),
        ),
{
    lemma_trimmed_start(s);
    lemma_trimmed_end(trimmed_start(s));
}

proof fn lemma_trimmed_start(s: Seq<char>)
    ensures
        trimmed_start(s).len() > 0 ==> !white_space(trimmed_start(s).first()),
    decreases s.len(),
{
    if s.len() > 0 && white_space(s.first()) {
        lemma_trimmed_start(s.drop_first());
    }
}

proof fn lemma_trimmed_end(s: Seq<char>)
    ensures
        trimmed_end(s).len() > 0 ==> !white_space(trimmed_end(s).last()),
        trimmed_end(s).len() > 0 ==> trimmed_end(s).first() == s.first(),
    decreases s.len(),
{
    if s.len() > 0 && white_space(s.last()) {
        lemma_trimmed_end(s.drop_last());
    }
}

/// Putting a call sign in its form twice is the same as doing it once.
pub proof fn law_plain_callsign_stable(s: Seq<char>)
    ensures
        plain_callsign(plain_callsign(s)) == plain_callsign(s),
{
    let t = trimmed(s);
    let u = upper(t);
    lemma_trimmed_ends(s);
    if t.len() > 0 {
        lemma_upper_keeps_space(t.first());
        lemma_upper_keeps_space(t.last());
    }
    assert(trimmed(u) == u);
    assert(upper(u) =~= u);
}

/// The written minutes are within half a hundredth of the true ones, even
/// where two are equally near, and are at most sixty.
pub proof fn law_minutes_nearest(part: nat)
    requires
        part < 8388608,
    ensures
        2 * minute_hundredths(part) * 8388608 <= 2 * part * 6000 + 8388608,
        2 * part * 6000 <= 2 * minute_hundredths(part) * 8388608 + 8388608,
        2 * minute_hundredths(part) * 8388608 == 2 * part * 6000 + 8388608 ==> minute_hundredths(
            part,
        ) % 2 == 0,
        2 * part * 6000 == 2 * minute_hundredths(part) * 8388608 + 8388608 ==> minute_hundredths(
            part,
        ) % 2 == 0,
        minute_hundredths(part) <= 6000,
{
}

/// Every place on earth is written in nineteen characters.
pub proof fn law_place_width(latitude: int, longitude: int, symbol_table: char, symbol: char)
    requires
        on_earth(latitude, longitude),
    ensures
        place(latitude, longitude, symbol_table, symbol).len() == 19,
{
    let unit = UNITS_PER_DEGREE as nat;
    let lat_part = minute_hundredths(magnitude(latitude) % unit);
    let lon_part = minute_hundredths(magnitude(longitude) % unit);
    law_minutes_nearest(magnitude(latitude) % unit);
    law_minutes_nearest(magnitude(longitude) % unit);
    law_padded_width(magnitude(latitude) / unit);
    law_padded_width(magnitude(longitude) / unit);
    law_padded_width(lat_part / 100);
    law_padded_width(lat_part % 100);
    law_padded_width(lon_part / 100);
    law_padded_width(lon_part % 100);
}

/// Packets depend on call signs only through the form in which they are
/// compared and sent.
pub proof fn law_packet_ignores_spelling(
    callsign: Seq<char>,
    gateway: Seq<char>,
    latitude: int,
    longitude: int,
    symbol_table: char,
    symbol: char,
)
    ensures
        position_packet(
            plain_callsign(callsign),
            plain_callsign(gateway),
            latitude,
            longitude,
            symbol_table,
            symbol,
        ) == position_packet(callsign, gateway, latitude, longitude, symbol_table, symbol),
{
    law_plain_callsign_stable(callsign);
    law_plain_callsign_stable(gateway);
}

/// The text has a character that is not white space.
pub open spec fn shows_something(s: Seq<char>) -> bool {
    exists|i: int| 0 <= i < s.len() && !white_space(#[trigger] s[i])
}

/// `u` is `t` with its small ASCII letters made capitals.
pub open spec fn capitals_of(u: Seq<char>, t: Seq<char>) -> bool {
    &&& u.len() == t.len()
    &&& forall|i: int|
        #![trigger u[i]]
        #![trigger t[i]]
        0 <= i < t.len() ==> if 'a' <= t[i] <= 'z' {
            u[i] as u32 + 32 == t[i] as u32
        } else {
            u[i] == t[i]
        }
}

/// A call sign is sent as what stands between the white space at its ends, in
/// capitals.
pub proof fn law_plain_callsign(s: Seq<char>)
    ensures
        exists|a: int, b: int| #[trigger]
            trims_to(s, s.subrange(a, b), a, b) && capitals_of(
                plain_callsign(s),
                s.subrange(a, b),
            ),
        plain_callsign(s).len() > 0 <==> shows_something(s),
{
    law_trimmed(s);
    let t = trimmed(s);
    let (a, b) = choose|a: int, b: int| trims_to(s, t, a, b);
    assert(t == s.subrange(a, b));
    assert(trims_to(s, s.subrange(a, b), a, b));
    assert forall|i: int|
        #![trigger plain_callsign(s)[i]]
        #![trigger t[i]]
        0 <= i < t.len() implies if 'a' <= t[i] <= 'z' {
        plain_callsign(s)[i] as u32 + 32 == t[i] as u32
    } else {
        plain_callsign(s)[i] == t[i]
    } by {
        law_ascii_case(t, i);
    }
    assert(capitals_of(plain_callsign(s), s.subrange(a, b)));
}

/// The table has a user for a radio number exactly where some record with the
/// number has a call sign that shows something, whatever else it holds.
pub proof fn law_users_by_callsign(records: Seq<UserRecord>, id: u32)
    ensures
        users_of(records).contains_key(id) <==> exists|i: int|
            0 <= i < records.len() && (#[trigger] records[i]).radio_id == id && shows_something(
                records[i].callsign@,
            ),
    decreases records.len(),
{
    if records.len() > 0 {
        let front = records.drop_last();
        let n = front.len() as int;
        law_users_by_callsign(front, id);
        law_plain_callsign(records.last().callsign@);
        if users_of(front).contains_key(id) {
            let i = choose|i: int|
                0 <= i < front.len() && (#[trigger] front[i]).radio_id == id && shows_something(
                    front[i].callsign@,
                );
            assert(records[i].radio_id == id && shows_something(records[i].callsign@));
        }
        if usable(records.last()) && records.last().radio_id == id {
            assert(records[n].radio_id == id && shows_something(records[n].callsign@));
        }
        if exists|i: int|
            0 <= i < records.len() && (#[trigger] records[i]).radio_id == id && shows_something(
                records[i].callsign@,
            ) {
            let i = choose|i: int|
                0 <= i < records.len() && (#[trigger] records[i]).radio_id == id
                    && shows_something(records[i].callsign@);
            if i < n {
                assert(front[i].radio_id == id && shows_something(front[i].callsign@));
            } else {
                assert(users_of(records).contains_key(id));
            }
        }
    }
}

/// The user of a number is that of the last record with the number whose call
/// sign shows something: its call sign trimmed and in capitals, its first
/// name trimmed.
pub proof fn law_user_of_last_record(records: Seq<UserRecord>, i: int)
    requires
        0 <= i < records.len(),
        shows_something(records[i].callsign@),
        forall|j: int|
            i < j < records.len() && (#[trigger] records[j]).radio_id == records[i].radio_id
                ==> !shows_something(records[j].callsign@),
    ensures
        users_of(records).contains_key(records[i].radio_id),
        exists|a: int, b: int| #[trigger]
            trims_to(records[i].callsign@, records[i].callsign@.subrange(a, b), a, b)
                && capitals_of(
                users_of(records)[records[i].radio_id].callsign,
                records[i].callsign@.subrange(a, b),
            ),
        exists|a: int, b: int|
            trims_to(
                records[i].fname@,
                users_of(records)[records[i].radio_id].first_name,
                a,
                b,
            ),
    decreases records.len(),
{
    law_plain_callsign(records[i].callsign@);
    law_trimmed(records[i].fname@);
    if i < records.len() - 1 {
        let front = records.drop_last();
        law_plain_callsign(records.last().callsign@);
        assert(records.last() == records[records.len() - 1]);
        assert forall|j: int|
            i < j < front.len() && (#[trigger] front[j]).radio_id
                == front[i].radio_id implies !shows_something(front[j].callsign@) by {
            assert(records[j].radio_id == records[i].radio_id);
        }
        law_user_of_last_record(front, i);
        assert(users_of(records)[records[i].radio_id] == users_of(front)[front[i].radio_id]);
    } else {
        assert(users_of(records)[records[i].radio_id] == user_of(records[i]));
        let (a, b) = choose|a: int, b: int|
            trims_to(records[i].fname@, trimmed(records[i].fname@), a, b);
        assert(trims_to(
            records[i].fname@,
            users_of(records)[records[i].radio_id].first_name,
            a,
            b,
        ));
    }
}

/// A table of users shows each user's call sign and first name under the
/// user's number, and no others.
pub proof fn law_user_views(users: Map<u32, AprsUser>, id: u32)
    ensures
        user_views(users).contains_key(id) <==> users.contains_key(id),
        users.contains_key(id) ==> user_views(users)[id].callsign == users[id].callsign@
            && user_views(users)[id].first_name == users[id].first_name@,
{
}

/// A coordinate is written as whole degrees, in at least the given width, and
/// minutes with two decimals, to the nearest hundredth and of two that are
/// equally near the even one.
pub proof fn law_coordinate(value: int, width: nat)
    ensures
        ({
            let size = if value < 0 {
                -value
            } else {
                value
            };
            let c = coordinate(value, width);
            let n = c.len() as int;
            let hundredths = 100 * digits_value(c.subrange(n - 5, n - 3)) + digits_value(
                c.subrange(n - 2, n),
            );
            &&& n >= 6
            &&& n >= width + 5
            &&& all_digits(c.take(n - 5))
            &&& digits_value(c.take(n - 5)) == size / 8388608
            &&& n > width + 5 && n > 6 ==> c[0] != '0'
            &&& all_digits(c.subrange(n - 5, n - 3))
            &&& c[n - 3] == '.'
            &&& all_digits(c.subrange(n - 2, n))
            &&& 2 * (hundredths * 8388608 - (size % 8388608) * 6000) <= 8388608
            &&& 2 * ((size % 8388608) * 6000 - hundredths * 8388608) <= 8388608
            &&& 2 * (hundredths * 8388608 - (size % 8388608) * 6000) == 8388608 ==> hundredths % 2
                == 0
            &&& 2 * ((size % 8388608) * 6000 - hundredths * 8388608) == 8388608 ==> hundredths % 2
                == 0
        }),
{
    let size = magnitude(value);
    let c = coordinate(value, width);
    let n = c.len() as int;
    let degrees = zero_padded(decimal(size / 8388608), width);
    let h = minute_hundredths(size % 8388608);
    let minutes = zero_padded(decimal(h / 100), 2);
    let rest = zero_padded(decimal(h % 100), 2);
    law_minutes_nearest(size % 8388608);
    law_decimal_reads_back(size / 8388608);
    law_padding(size / 8388608, width);
    law_padding(h / 100, 2);
    law_padding(h % 100, 2);
    law_padded_width(h / 100);
    law_padded_width(h % 100);
    assert(c =~= degrees + minutes + seq!['.'] + rest);
    assert(c.take(n - 5) =~= degrees);
    assert(c.subrange(n - 5, n - 3) =~= minutes);
    assert(c.subrange(n - 2, n) =~= rest);
    assert(h == 100 * (h / 100) + h % 100);
    if n > width + 5 {
        assert(degrees == decimal(size / 8388608));
    }
}

/// Every place on earth is written in nineteen characters: two digits of
/// latitude, its minutes and hemisphere, the symbol's table, three digits of
/// longitude, its minutes and hemisphere, and the symbol.
#[verifier::spinoff_prover]
#[verifier::rlimit(40)]
pub proof fn law_place_layout(latitude: int, longitude: int, symbol_table: char, symbol: char)
    requires
        -90 * 8388608 <= latitude <= 90 * 8388608,
        -180 * 8388608 <= longitude <= 180 * 8388608,
    ensures
        ({
            let p = place(latitude, longitude, symbol_table, symbol);
            let north = if latitude < 0 {
                -latitude
            } else {
                latitude
            };
            let east = if longitude < 0 {
                -longitude
            } else {
                longitude
            };
            &&& p.len() == 19
            &&& p.take(7) == coordinate(latitude, 2)
            &&& all_digits(p.subrange(0, 2)) && digits_value(p.subrange(0, 2)) == north / 8388608
            &&& all_digits(p.subrange(2, 4)) && digits_value(p.subrange(2, 4)) <= 60
            &&& p[4] == '.'
            &&& all_digits(p.subrange(5, 7))
            &&& p[7] == if latitude < 0 {
                'S'
            } else {
                'N'
            }
            &&& p[8] == symbol_table
            &&& p.subrange(9, 17) == coordinate(longitude, 3)
            &&& all_digits(p.subrange(9, 12)) && digits_value(p.subrange(9, 12)) == east / 8388608
            &&& all_digits(p.subrange(12, 14)) && digits_value(p.subrange(12, 14)) <= 60
            &&& p[14] == '.'
            &&& all_digits(p.subrange(15, 17))
            &&& p[17] == if longitude < 0 {
                'W'
            } else {
                'E'
            }
            &&& p[18] == symbol
        }),
{
    let p = place(latitude, longitude, symbol_table, symbol);
    let c = coordinate(latitude, 2);
    let d = coordinate(longitude, 3);
    let north = magnitude(latitude);
    let east = magnitude(longitude);
    law_coordinate(latitude, 2);
    law_coordinate(longitude, 3);
    law_padded_width(north / 8388608);
    law_padded_width(east / 8388608);
    law_minutes_nearest(north % 8388608);
    law_minutes_nearest(east % 8388608);
    law_padding(minute_hundredths(north % 8388608) / 100, 2);
    law_padding(minute_hundredths(east % 8388608) / 100, 2);
    law_padded_width(minute_hundredths(north % 8388608) / 100);
    law_padded_width(minute_hundredths(north % 8388608) % 100);
    law_padded_width(minute_hundredths(east % 8388608) / 100);
    law_padded_width(minute_hundredths(east % 8388608) % 100);
    assert(c.len() == 7);
    assert(d.len() == 8);
    assert(p.take(7) =~= c);
    assert(p.subrange(9, 17) =~= d);
    assert(p.subrange(0, 2) =~= c.take(2));
    assert(p.subrange(2, 4) =~= c.subrange(2, 4));
    assert(p.subrange(5, 7) =~= c.subrange(5, 7));
    assert(p.subrange(9, 12) =~= d.take(3));
    assert(p.subrange(12, 14) =~= d.subrange(3, 5));
    assert(p.subrange(15, 17) =~= d.subrange(6, 8));
    assert(c.subrange(2, 4) =~= zero_padded(
        decimal(minute_hundredths(north % 8388608) / 100),
        2,
    ));
    assert(d.subrange(3, 5) =~= zero_padded(
        decimal(minute_hundredths(east % 8388608) / 100),
        2,
    ));
    assert(p[4] == c[4]);
    assert(p[14] == d[5]);
}

/// Wherever it is, a place is two coordinates, each with its hemisphere behind
/// it, the symbol's table behind the first and the symbol behind the second.
pub proof fn law_place_parts(latitude: int, longitude: int, symbol_table: char, symbol: char)
    ensures
        ({
            let p = place(latitude, longitude, symbol_table, symbol);
            let n = coordinate(latitude, 2).len() as int;
            &&& p.len() == n + coordinate(longitude, 3).len() + 4
            &&& p.take(n) == coordinate(latitude, 2)
            &&& p[n] == if latitude < 0 {
                'S'
            } else {
                'N'
            }
            &&& p[n + 1] == symbol_table
            &&& p.subrange(n + 2, p.len() - 2) == coordinate(longitude, 3)
            &&& p[p.len() - 2] == if longitude < 0 {
                'W'
            } else {
                'E'
            }
            &&& p[p.len() - 1] == symbol
        }),
{
    let p = place(latitude, longitude, symbol_table, symbol);
    let n = coordinate(latitude, 2).len() as int;
    assert(p.take(n) =~= coordinate(latitude, 2));
    assert(p.subrange(n + 2, p.len() - 2) =~= coordinate(longitude, 3));
}

/// A packet names its source, the path and the place. The path is that of
/// TCP/IP where the source is the gateway itself, and names the gateway
/// otherwise.
pub proof fn law_packet_layout(
    callsign: Seq<char>,
    gateway: Seq<char>,
    latitude: int,
    longitude: int,
    symbol_table: char,
    symbol: char,
)
    ensures
        plain_callsign(callsign) == plain_callsign(gateway) ==> position_packet(
            callsign,
            gateway,
            latitude,
            longitude,
            symbol_table,
            symbol,
        ) == plain_callsign(callsign) + ">APRS,TCPIP*:!"@ + place(
            latitude,
            longitude,
            symbol_table,
            symbol,
        ),
        plain_callsign(callsign) != plain_callsign(gateway) ==> position_packet(
            callsign,
            gateway,
            latitude,
            longitude,
            symbol_table,
            symbol,
        ) == plain_callsign(callsign) + ">APRS,qAR,"@ + plain_callsign(gateway) + ":!"@ + place(
            latitude,
            longitude,
            symbol_table,
            symbol,
        ),
{
    reveal_strlit(">APRS,");
    reveal_strlit("TCPIP*");
    reveal_strlit("qAR,");
    reveal_strlit(":!");
    reveal_strlit(">APRS,TCPIP*:!");
    reveal_strlit(">APRS,qAR,");
    let packet = position_packet(callsign, gateway, latitude, longitude, symbol_table, symbol);
    let there = place(latitude, longitude, symbol_table, symbol);
    if plain_callsign(callsign) == plain_callsign(gateway) {
        assert(packet =~= plain_callsign(callsign) + ">APRS,TCPIP*:!"@ + there);
    } else {
        assert(packet =~= plain_callsign(callsign) + ">APRS,qAR,"@ + plain_callsign(gateway)
            + ":!"@ + there);
    }
}

/// A reported position is passed over where both coordinates are zero,
/// refused where it lies beyond a pole or the date line, and otherwise sent
/// as the packet of the user and the gateway, with the gateway's symbol.
pub proof fn law_position_outcome(callsign: Seq<char>, config: AprsConfig, position: LipPosition)
    ensures
        position_outcome(callsign, config, position) is NoPosition <==> position.latitude == 0
            && position.longitude == 0,
        position_outcome(callsign, config, position) is OutOfRange <==> position.latitude > 90
            * 8388608 || position.latitude < -90 * 8388608 || position.longitude > 180 * 8388608
            || position.longitude < -180 * 8388608,
        position_outcome(callsign, config, position) matches OutcomeView::Packet(packet)
            ==> packet == position_packet(
            callsign,
            config.login_callsign@,
            position.latitude as int,
            position.longitude as int,
            config.symbol_table,
            config.symbol,
        ) && packet.len() >= 19 && packet[packet.len() - 1] == config.symbol && packet[packet.len()
            - 11] == config.symbol_table,
        position_outcome(callsign, config, position) !is UnknownSource,
        position_outcome(callsign, config, position) !is Undecodable,
{
    let latitude = position.latitude as int;
    let longitude = position.longitude as int;
    if -90 * 8388608 <= latitude <= 90 * 8388608 && -180 * 8388608 <= longitude <= 180 * 8388608 {
        law_place_layout(latitude, longitude, config.symbol_table, config.symbol);
        law_packet_layout(
            callsign,
            config.login_callsign@,
            latitude,
            longitude,
            config.symbol_table,
            config.symbol,
        );
    }
}

/// What becomes of a report: an unknown sender is not looked into; a report
/// that cannot be read is refused for what is wrong with it; any other is
/// treated as the position that it gives, under the sender's call sign.
pub proof fn law_report_outcome(
    users: Map<u32, UserView>,
    config: AprsConfig,
    source_issi: u32,
    data: Seq<u8>,
    length_bits: u16,
)
    ensures
        report_outcome(users, config, source_issi, data, length_bits) is UnknownSource
            <==> !users.contains_key(source_issi),
        users.contains_key(source_issi) ==> {
            &&& decoded(data, length_bits) matches Err(e) ==> report_outcome(
                users,
                config,
                source_issi,
                data,
                length_bits,
            ) == OutcomeView::Undecodable(e)
            &&& decoded(data, length_bits) matches Ok(p) ==> {
                let outcome = report_outcome(users, config, source_issi, data, length_bits);
                &&& outcome !is Undecodable
                &&& outcome is NoPosition <==> p.latitude == 0 && p.longitude == 0
                &&& !(p.latitude == 0 && p.longitude == 0) ==> outcome == OutcomeView::Packet(
                    position_packet(
                        users[source_issi].callsign,
                        config.login_callsign@,
                        p.latitude as int,
                        p.longitude as int,
                        config.symbol_table,
                        config.symbol,
                    ),
                )
            }
        },
{
    if decoded(data, length_bits) is Ok {
        law_decoded_in_range(data, length_bits);
        law_position_outcome(
            users[source_issi].callsign,
            config,
            decoded(data, length_bits)->Ok_0,
        );
    }
}

/// What becomes of a report is shown as what it is.
pub proof fn law_outcome_views(outcome: LipOutcome)
    ensures
        outcome is UnknownSource <==> outcome@ is UnknownSource,
        outcome is NoPosition <==> outcome@ is NoPosition,
        outcome is OutOfRange <==> outcome@ is OutOfRange,
        outcome matches LipOutcome::Undecodable(e) ==> outcome@ == OutcomeView::Undecodable(e),
        outcome matches LipOutcome::Packet(p) ==> outcome@ == OutcomeView::Packet(p@),
{
}

} // verus!
