//! The advertisement string of a Bedrock server.

use vstd::prelude::*;

use crate::text;
use crate::text::{parse_unsigned, push_decimal, split_pieces};

verus! {

/// A Minecraft Bedrock server advertisement.
///
/// Format: `MCPE;ServerName;Protocol;Version;Players;MaxPlayers;GUID;SubName;GameMode;GameModeNumeric;PortIPv4;PortIPv6;`
#[derive(Debug)]
pub struct BedrockIdentifier {
    pub edition: String,
    pub server_name: String,
    pub protocol_version: u32,
    pub version_name: String,
    pub player_count: u32,
    pub max_player_count: u32,
    pub server_guid: u64,
    pub sub_name: String,
    pub game_mode: String,
    pub game_mode_numeric: u32,
    pub port_ipv4: u16,
    pub port_ipv6: u16,
    pub extra: Vec<String>,
}

/// What an advertisement says, as mathematical values.
pub struct IdentifierModel {
    pub edition: Seq<char>,
    pub server_name: Seq<char>,
    pub protocol_version: nat,
    pub version_name: Seq<char>,
    pub player_count: nat,
    pub max_player_count: nat,
    pub server_guid: nat,
    pub sub_name: Seq<char>,
    pub game_mode: Seq<char>,
    pub game_mode_numeric: nat,
    pub port_ipv4: nat,
    pub port_ipv6: nat,
    pub extra: Seq<Seq<char>>,
}

impl View for BedrockIdentifier {
    type V = IdentifierModel;

    open spec fn view(&self) -> IdentifierModel {
        IdentifierModel {
            edition: self.edition@,
            server_name: self.server_name@,
            protocol_version: self.protocol_version as nat,
            version_name: self.version_name@,
            player_count: self.player_count as nat,
            max_player_count: self.max_player_count as nat,
            server_guid: self.server_guid as nat,
            sub_name: self.sub_name@,
            game_mode: self.game_mode@,
            game_mode_numeric: self.game_mode_numeric as nat,
            port_ipv4: self.port_ipv4 as nat,
            port_ipv6: self.port_ipv6 as nat,
            extra: text::views(self.extra@),
        }
    }
}

/// Why a string is no advertisement.
#[derive(Debug, PartialEq, Eq)]
pub enum IdentifierError {
    /// Fewer than seven components; carries their number.
    TooFewParts(usize),
    /// A numeric component that is not a number of its range.
    ParseIntError { field: &'static str, value: String },
}

/// What an [`IdentifierError`] says, as mathematical values.
pub enum IdentifierErrorModel {
    TooFewParts(nat),
    ParseIntError { field: Seq<char>, value: Seq<char> },
}

impl View for IdentifierError {
    type V = IdentifierErrorModel;

    open spec fn view(&self) -> IdentifierErrorModel {
        match *self {
            IdentifierError::TooFewParts(n) => IdentifierErrorModel::TooFewParts(n as nat),
            IdentifierError::ParseIntError { field, value } => IdentifierErrorModel::ParseIntError {
                field: field@,
                value: value@,
            },
        }
    }
}

impl IdentifierErrorModel {
    /// What the error's message says.
    pub open spec fn message(self) -> Seq<char> {
        match self {
            IdentifierErrorModel::TooFewParts(n) => {
                "Identifier string has too few components: "@ + text::decimal(n)
            },
            IdentifierErrorModel::ParseIntError { field, value } => {
                "Failed to parse integer field '"@ + field + "': "@ + value
            },
        }
    }
}

impl IdentifierError {
    /// The error in words.
    pub fn display(&self) -> (r: String)
        ensures
            r@ == self@.message(),
    {
        match self {
            IdentifierError::TooFewParts(n) => {
                let mut out = "Identifier string has too few components: ".to_owned();
                push_decimal(&mut out, *n as u64);
                out
            },
            IdentifierError::ParseIntError { field, value } => {
                let mut out = "Failed to parse integer field '".to_owned();
                out.append(field);
                out.append("': ");
                out.append(value.as_str());
                out
            },
        }
    }
}

/// The number that component `i` holds, or the default where there is no such component.
pub open spec fn number_at(parts: Seq<Seq<char>>, i: int, default: nat, max: nat) -> Option<nat> {
    if i < parts.len() {
        text::unsigned_value(parts[i], max)
    } else {
        Some(default)
    }
}

/// The text of component `i`, or the default where there is no such component.
pub open spec fn text_at(parts: Seq<Seq<char>>, i: int, default: Seq<char>) -> Seq<char> {
    if i < parts.len() {
        parts[i]
    } else {
        default
    }
}

pub open spec fn bad_number(field: Seq<char>, parts: Seq<Seq<char>>, i: int) -> Result<
    IdentifierModel,
    IdentifierErrorModel,
> {
    Err(IdentifierErrorModel::ParseIntError { field, value: parts[i] })
}

/// What the components of an advertisement say. Of several bad numbers the first counts.
pub open spec fn identifier_of_parts(parts: Seq<Seq<char>>) -> Result<
    IdentifierModel,
    IdentifierErrorModel,
> {
    let protocol_version = number_at(parts, 2, 0, u32::MAX as nat);
    let player_count = number_at(parts, 4, 0, u32::MAX as nat);
    let max_player_count = number_at(parts, 5, 0, u32::MAX as nat);
    let server_guid = number_at(parts, 6, 0, u64::MAX as nat);
    let game_mode_numeric = number_at(parts, 9, 1, u32::MAX as nat);
    let port_ipv4 = number_at(parts, 10, 19132, u16::MAX as nat);
    let port_ipv6 = number_at(parts, 11, 19133, u16::MAX as nat);
    if parts.len() < 7 {
        Err(IdentifierErrorModel::TooFewParts(parts.len()))
    } else if protocol_version is None {
        bad_number("protocol_version"@, parts, 2)
    } else if player_count is None {
        bad_number("player_count"@, parts, 4)
    } else if max_player_count is None {
        bad_number("max_player_count"@, parts, 5)
    } else if server_guid is None {
        bad_number("server_guid"@, parts, 6)
    } else if game_mode_numeric is None {
        bad_number("game_mode_numeric"@, parts, 9)
    } else if port_ipv4 is None {
        bad_number("port_ipv4"@, parts, 10)
    } else if port_ipv6 is None {
        bad_number("port_ipv6"@, parts, 11)
    } else {
        Ok(
            IdentifierModel {
                edition: parts[0],
                server_name: parts[1],
                protocol_version: protocol_version.unwrap(),
                version_name: parts[3],
                player_count: player_count.unwrap(),
                max_player_count: max_player_count.unwrap(),
                server_guid: server_guid.unwrap(),
                sub_name: text_at(parts, 7, ""@),
                game_mode: text_at(parts, 8, "Survival"@),
                game_mode_numeric: game_mode_numeric.unwrap(),
                port_ipv4: port_ipv4.unwrap(),
                port_ipv6: port_ipv6.unwrap(),
                extra: if parts.len() > 12 {
                    parts.skip(12)
                } else {
                    Seq::<Seq<char>>::empty()
                },
            },
        )
    }
}

/// What an advertisement string says.
pub open spec fn identifier_of(s: Seq<char>) -> Result<IdentifierModel, IdentifierErrorModel> {
    identifier_of_parts(text::split_terminated(s, ';'))
}

/// The components of an advertisement, in order.
pub open spec fn identifier_parts(m: IdentifierModel) -> Seq<Seq<char>> {
    seq![
        m.edition,
        m.server_name,
        text::decimal(m.protocol_version),
        m.version_name,
        text::decimal(m.player_count),
        text::decimal(m.max_player_count),
        text::decimal(m.server_guid),
        m.sub_name,
        m.game_mode,
        text::decimal(m.game_mode_numeric),
        text::decimal(m.port_ipv4),
        text::decimal(m.port_ipv6),
    ] + m.extra
}

/// The advertisement as text: each component followed by a semicolon.
pub open spec fn identifier_text(m: IdentifierModel) -> Seq<char> {
    text::terminate_all(identifier_parts(m), ';')
}

/// Reads component `i` as a number of at most `max`.
fn number_field(
    parts: &Vec<String>,
    i: usize,
    default: u64,
    max: u64,
    field: &'static str,
) -> (r: Result<u64, IdentifierError>)
    requires
        default <= max,
    ensures
        match r {
            Ok(n) => number_at(text::views(parts@), i as int, default as nat, max as nat)
                == Some(n as nat) && n <= max,
            Err(e) => {
                &&& number_at(
                    text::views(parts@),
                    i as int,
                    default as nat,
                    max as nat,
                ) is None
                &&& i < parts@.len()
                &&& e@ == (IdentifierErrorModel::ParseIntError {
                    field: field@,
                    value: text::views(parts@)[i as int],
                })
            },
        },
{
    if i >= parts.len() {
        return Ok(default);
    }
    match parse_unsigned(parts[i].as_str(), max) {
        Some(n) => Ok(n),
        None => Err(IdentifierError::ParseIntError { field, value: parts[i].clone() }),
    }
}

/// The text of component `i`.
fn text_field(parts: &Vec<String>, i: usize, default: &str) -> (r: String)
    ensures
        r@ == text_at(text::views(parts@), i as int, default@),
{
    if i < parts.len() {
        parts[i].clone()
    } else {
        default.to_owned()
    }
}

/// Appends a component and its semicolon.
fn push_piece(out: &mut String, Ghost(done): Ghost<Seq<Seq<char>>>, piece: &str)
    requires
        old(out)@ == text::terminate_all(done, ';'),
    ensures
        final(out)@ == text::terminate_all(done.push(piece@), ';'),
{
    out.append(piece);
    out.push(';');
    assert(done.push(piece@).drop_last() == done);
}

/// Appends a numeric component and its semicolon.
fn push_number(out: &mut String, Ghost(done): Ghost<Seq<Seq<char>>>, n: u64)
    requires
        old(out)@ == text::terminate_all(done, ';'),
    ensures
        final(out)@ == text::terminate_all(
            done.push(text::decimal(n as nat)),
            ';',
        ),
{
    push_decimal(out, n);
    out.push(';');
    assert(done.push(text::decimal(n as nat)).drop_last() == done);
}

impl BedrockIdentifier {
    /// Reads an advertisement string.
    pub fn parse(s: &str) -> (r: Result<Self, IdentifierError>)
        ensures
            match r {
                Ok(id) => identifier_of(s@) == Ok::<IdentifierModel, IdentifierErrorModel>(id@),
                Err(e) => identifier_of(s@) == Err::<IdentifierModel, IdentifierErrorModel>(e@),
            },
    {
        let parts = split_pieces(s, ';');
        if parts.len() < 7 {
            return Err(IdentifierError::TooFewParts(parts.len()));
        }
        let protocol_version = match number_field(&parts, 2, 0, u32::MAX as u64, "protocol_version") {
            Ok(n) => n as u32,
            Err(e) => return Err(e),
        };
        let player_count = match number_field(&parts, 4, 0, u32::MAX as u64, "player_count") {
            Ok(n) => n as u32,
            Err(e) => return Err(e),
        };
        let max_player_count = match number_field(&parts, 5, 0, u32::MAX as u64, "max_player_count") {
            Ok(n) => n as u32,
            Err(e) => return Err(e),
        };
        let server_guid = match number_field(&parts, 6, 0, u64::MAX, "server_guid") {
            Ok(n) => n,
            Err(e) => return Err(e),
        };
        let game_mode_numeric = match number_field(
            &parts,
            9,
            1,
            u32::MAX as u64,
            "game_mode_numeric",
        ) {
            Ok(n) => n as u32,
            Err(e) => return Err(e),
        };
        let port_ipv4 = match number_field(&parts, 10, 19132, u16::MAX as u64, "port_ipv4") {
            Ok(n) => n as u16,
            Err(e) => return Err(e),
        };
        let port_ipv6 = match number_field(&parts, 11, 19133, u16::MAX as u64, "port_ipv6") {
            Ok(n) => n as u16,
            Err(e) => return Err(e),
        };
        let ghost texts = text::views(parts@);
        let mut extra: Vec<String> = Vec::new();
        let mut i: usize = 12;
        while i < parts.len()
            invariant
                12 <= i,
                texts == text::views(parts@),
                i <= parts.len() || (i == 12 && extra@.len() == 0),
                i <= parts.len() ==> text::views(extra@) == texts.subrange(12, i as int),
            decreases parts.len() - i,
        {
            let ghost held = text::views(extra@);
            extra.push(parts[i].clone());
            assert(text::views(extra@) == held.push(texts[i as int]));
            i = i + 1;
        }
        proof {
            if parts@.len() >= 12 {
                assert(texts.subrange(12, texts.len() as int) == texts.skip(12));
            }
            assert(text::views(extra@) == if texts.len() > 12 {
                texts.skip(12)
            } else {
                Seq::<Seq<char>>::empty()
            });
        }
        Ok(
            BedrockIdentifier {
                edition: parts[0].clone(),
                server_name: parts[1].clone(),
                protocol_version,
                version_name: parts[3].clone(),
                player_count,
                max_player_count,
                server_guid,
                sub_name: text_field(&parts, 7, ""),
                game_mode: text_field(&parts, 8, "Survival"),
                game_mode_numeric,
                port_ipv4,
                port_ipv6,
                extra,
            },
        )
    }

    /// Rewrites the advertised IPv4 and IPv6 ports to the local ephemeral port.
    pub fn with_ephemeral_port(self, port: u16) -> (r: Self)
        ensures
            r@ == (IdentifierModel { port_ipv4: port as nat, port_ipv6: port as nat, ..self@ }),
    {
        BedrockIdentifier { port_ipv4: port, port_ipv6: port, ..self }
    }

    /// Sets the RakNet server GUID.
    pub fn with_guid(self, guid: u64) -> (r: Self)
        ensures
            r@ == (IdentifierModel { server_guid: guid as nat, ..self@ }),
    {
        BedrockIdentifier { server_guid: guid, ..self }
    }

    /// The advertisement as text, in the standard MCPE format.
    pub fn serialize_to_string(&self) -> (r: String)
        ensures
            r@ == identifier_text(self@),
    {
        let mut s = String::new();
        let ghost parts = identifier_parts(self@);
        push_piece(&mut s, Ghost(parts.take(0)), self.edition.as_str());
        assert(parts.take(1) == parts.take(0).push(parts[0]));
        push_piece(&mut s, Ghost(parts.take(1)), self.server_name.as_str());
        assert(parts.take(2) == parts.take(1).push(parts[1]));
        push_number(&mut s, Ghost(parts.take(2)), self.protocol_version as u64);
        assert(parts.take(3) == parts.take(2).push(parts[2]));
        push_piece(&mut s, Ghost(parts.take(3)), self.version_name.as_str());
        assert(parts.take(4) == parts.take(3).push(parts[3]));
        push_number(&mut s, Ghost(parts.take(4)), self.player_count as u64);
        assert(parts.take(5) == parts.take(4).push(parts[4]));
        push_number(&mut s, Ghost(parts.take(5)), self.max_player_count as u64);
        assert(parts.take(6) == parts.take(5).push(parts[5]));
        push_number(&mut s, Ghost(parts.take(6)), self.server_guid);
        assert(parts.take(7) == parts.take(6).push(parts[6]));
        push_piece(&mut s, Ghost(parts.take(7)), self.sub_name.as_str());
        assert(parts.take(8) == parts.take(7).push(parts[7]));
        push_piece(&mut s, Ghost(parts.take(8)), self.game_mode.as_str());
        assert(parts.take(9) == parts.take(8).push(parts[8]));
        push_number(&mut s, Ghost(parts.take(9)), self.game_mode_numeric as u64);
        assert(parts.take(10) == parts.take(9).push(parts[9]));
        push_number(&mut s, Ghost(parts.take(10)), self.port_ipv4 as u64);
        assert(parts.take(11) == parts.take(10).push(parts[10]));
        push_number(&mut s, Ghost(parts.take(11)), self.port_ipv6 as u64);
        assert(parts.take(12) == parts.take(11).push(parts[11]));
        for i in 0..self.extra.len()
            invariant
                parts == identifier_parts(self@),
                s@ == text::terminate_all(parts.take(12 + i), ';'),
        {
            push_piece(&mut s, Ghost(parts.take(12 + i)), self.extra[i].as_str());
            assert(parts[12 + i] == self.extra@[i as int]@);
            assert(parts.take(12 + i + 1) == parts.take(12 + i).push(parts[12 + i]));
        }
        assert(parts.take(parts.len() as int) == parts);
        s
    }
}

/// Whether two lists hold the same strings in the same order.
fn same_strings(a: &Vec<String>, b: &Vec<String>) -> (r: bool)
    ensures
        r == (text::views(a@) == text::views(b@)),
{
    if a.len() != b.len() {
        assert(text::views(a@).len() != text::views(b@).len());
        return false;
    }
    for i in 0..a.len()
        invariant
            a@.len() == b@.len(),
            forall|k: int| 0 <= k < i ==> (#[trigger] a@[k])@ == b@[k]@,
    {
        if a[i] != b[i] {
            assert(text::views(a@)[i as int] != text::views(b@)[i as int]);
            return false;
        }
    }
    assert(text::views(a@) == text::views(b@));
    true
}

impl BedrockIdentifier {
    /// The advertisement in words, which are its text.
    pub fn display(&self) -> (r: String)
        ensures
            r@ == identifier_text(self@),
    {
        self.serialize_to_string()
    }
}

impl Clone for BedrockIdentifier {
    fn clone(&self) -> (r: Self)
        ensures
            r@ == self@,
    {
        let extra = self.extra.clone();
        assert(text::views(extra@) == text::views(self.extra@));
        BedrockIdentifier {
            edition: self.edition.clone(),
            server_name: self.server_name.clone(),
            protocol_version: self.protocol_version,
            version_name: self.version_name.clone(),
            player_count: self.player_count,
            max_player_count: self.max_player_count,
            server_guid: self.server_guid,
            sub_name: self.sub_name.clone(),
            game_mode: self.game_mode.clone(),
            game_mode_numeric: self.game_mode_numeric,
            port_ipv4: self.port_ipv4,
            port_ipv6: self.port_ipv6,
            extra,
        }
    }
}

impl PartialEq for BedrockIdentifier {
    fn eq(&self, other: &Self) -> (r: bool) {
        self.edition == other.edition && self.server_name == other.server_name
            && self.protocol_version == other.protocol_version && self.version_name
            == other.version_name && self.player_count == other.player_count
            && self.max_player_count == other.max_player_count && self.server_guid
            == other.server_guid && self.sub_name == other.sub_name && self.game_mode
            == other.game_mode && self.game_mode_numeric == other.game_mode_numeric
            && self.port_ipv4 == other.port_ipv4 && self.port_ipv6 == other.port_ipv6
            && same_strings(&self.extra, &other.extra)
    }
}

impl vstd::std_specs::cmp::PartialEqSpecImpl for BedrockIdentifier {
    open spec fn obeys_eq_spec() -> bool {
        true
    }

    open spec fn eq_spec(&self, other: &Self) -> bool {
        self@ == other@
    }
}

impl Eq for BedrockIdentifier {

}

/// The text components of an advertisement, among which a semicolon would end a component early.
pub open spec fn identifier_texts(m: IdentifierModel) -> Seq<Seq<char>> {
    seq![m.edition, m.server_name, m.version_name, m.sub_name, m.game_mode] + m.extra
}

/// Whether the numbers of an advertisement are those that its fields can hold.
pub open spec fn identifier_in_range(m: IdentifierModel) -> bool {
    &&& m.protocol_version <= u32::MAX
    &&& m.player_count <= u32::MAX
    &&& m.max_player_count <= u32::MAX
    &&& m.server_guid <= u64::MAX
    &&& m.game_mode_numeric <= u32::MAX
    &&& m.port_ipv4 <= u16::MAX
    &&& m.port_ipv6 <= u16::MAX
}

proof fn decimal_is_free_of_semicolon(n: nat)
    ensures
        !text::decimal(n).contains(';'),
{
    text::decimal_reads_back(n);
    if text::decimal(n).contains(';') {
        let k = choose|k: int| 0 <= k < text::decimal(n).len() && text::decimal(n)[k] == ';';
        assert(text::is_digit(text::decimal(n)[k]));
    }
}

/// Reading inverts writing: an advertisement whose texts hold no semicolon is read back unchanged
/// from its own string.
pub proof fn parse_inverts_serialize(m: IdentifierModel)
    requires
        identifier_in_range(m),
        text::free_of(identifier_texts(m), ';'),
    ensures
        identifier_of(identifier_text(m)) == Ok::<IdentifierModel, IdentifierErrorModel>(m),
{
    let parts = identifier_parts(m);
    let texts = identifier_texts(m);
    assert(texts[0] == m.edition && texts[1] == m.server_name && texts[2] == m.version_name
        && texts[3] == m.sub_name && texts[4] == m.game_mode);
    decimal_is_free_of_semicolon(m.protocol_version);
    decimal_is_free_of_semicolon(m.player_count);
    decimal_is_free_of_semicolon(m.max_player_count);
    decimal_is_free_of_semicolon(m.server_guid);
    decimal_is_free_of_semicolon(m.game_mode_numeric);
    decimal_is_free_of_semicolon(m.port_ipv4);
    decimal_is_free_of_semicolon(m.port_ipv6);
    assert forall|i: int| 0 <= i < parts.len() implies !(#[trigger] parts[i]).contains(';') by {
        if i >= 12 {
            assert(parts[i] == m.extra[i - 12]);
            assert(texts[i - 12 + 5] == m.extra[i - 12]);
        }
    }
    text::split_terminated_inverts_terminate(parts, ';');
    text::unsigned_reads_decimal(m.protocol_version, u32::MAX as nat);
    text::unsigned_reads_decimal(m.player_count, u32::MAX as nat);
    text::unsigned_reads_decimal(m.max_player_count, u32::MAX as nat);
    text::unsigned_reads_decimal(m.server_guid, u64::MAX as nat);
    text::unsigned_reads_decimal(m.game_mode_numeric, u32::MAX as nat);
    text::unsigned_reads_decimal(m.port_ipv4, u16::MAX as nat);
    text::unsigned_reads_decimal(m.port_ipv6, u16::MAX as nat);
    assert(parts.len() == 12 + m.extra.len());
    if m.extra.len() > 0 {
        assert(parts.skip(12) == m.extra);
    } else {
        assert(m.extra == Seq::<Seq<char>>::empty());
    }
}

/// What is read from any string has numbers in range and texts without semicolons.
pub proof fn parsed_is_well_formed(s: Seq<char>)
    ensures
        identifier_of(s) matches Ok(m) ==> identifier_in_range(m) && text::free_of(
            identifier_texts(m),
            ';',
        ),
{
    let parts = text::split_terminated(s, ';');
    text::split_on_is_free_of_separator(s, ';');
    let pieces = text::split_on(s, ';');
    assert forall|i: int| 0 <= i < parts.len() implies !(#[trigger] parts[i]).contains(';') by {
        assert(parts[i] == pieces[i]);
    }
    if let Ok(m) = identifier_of(s) {
        let texts = identifier_texts(m);
        reveal_strlit("");
        reveal_strlit("Survival");
        assert forall|i: int| 0 <= i < texts.len() implies !(#[trigger] texts[i]).contains(
            ';',
        ) by {
            if i >= 5 {
                assert(texts[i] == m.extra[i - 5]);
                assert(m.extra[i - 5] == parts[i + 7]);
            }
        }
    }
}

/// Reading a string, writing what was read and reading again gives the same advertisement.
pub proof fn reparse_is_stable(s: Seq<char>)
    ensures
        identifier_of(s) matches Ok(m) ==> identifier_of(identifier_text(m)) == Ok::<
            IdentifierModel,
            IdentifierErrorModel,
        >(m),
{
    parsed_is_well_formed(s);
    if let Ok(m) = identifier_of(s) {
        parse_inverts_serialize(m);
    }
}

/// The components of an advertisement stand in this order, numbers in decimal digits, and further
/// ones behind them.
pub proof fn components_stand_in_order(m: IdentifierModel, i: int)
    ensures
        ({
            let parts = identifier_parts(m);
            &&& parts.len() == 12 + m.extra.len()
            &&& parts[0] == m.edition
            &&& parts[1] == m.server_name
            &&& parts[2] == text::decimal(m.protocol_version)
            &&& parts[3] == m.version_name
            &&& parts[4] == text::decimal(m.player_count)
            &&& parts[5] == text::decimal(m.max_player_count)
            &&& parts[6] == text::decimal(m.server_guid)
            &&& parts[7] == m.sub_name
            &&& parts[8] == m.game_mode
            &&& parts[9] == text::decimal(m.game_mode_numeric)
            &&& parts[10] == text::decimal(m.port_ipv4)
            &&& parts[11] == text::decimal(m.port_ipv6)
            &&& 0 <= i < m.extra.len() ==> parts[12 + i] == m.extra[i]
            &&& identifier_text(m) == text::terminate_all(parts, ';')
        }),
{
}

/// What is read from a string: each field is the component at its place, or the default of one that
/// is missing, and whatever stands behind the twelfth is kept.
pub proof fn fields_are_the_components(s: Seq<char>)
    ensures
        identifier_of(s) matches Ok(m) ==> {
            let parts = text::split_terminated(s, ';');
            &&& parts.len() >= 7
            &&& m.edition == parts[0]
            &&& m.server_name == parts[1]
            &&& text::unsigned_value(parts[2], 0xffff_ffff) == Some(m.protocol_version)
            &&& m.version_name == parts[3]
            &&& text::unsigned_value(parts[4], 0xffff_ffff) == Some(m.player_count)
            &&& text::unsigned_value(parts[5], 0xffff_ffff) == Some(m.max_player_count)
            &&& text::unsigned_value(parts[6], 0xffff_ffff_ffff_ffff) == Some(m.server_guid)
            &&& m.sub_name == if parts.len() > 7 {
                parts[7]
            } else {
                Seq::<char>::empty()
            }
            &&& m.game_mode == if parts.len() > 8 {
                parts[8]
            } else {
                "Survival"@
            }
            &&& if parts.len() > 9 {
                text::unsigned_value(parts[9], 0xffff_ffff) == Some(m.game_mode_numeric)
            } else {
                m.game_mode_numeric == 1
            }
            &&& if parts.len() > 10 {
                text::unsigned_value(parts[10], 0xffff) == Some(m.port_ipv4)
            } else {
                m.port_ipv4 == 19132
            }
            &&& if parts.len() > 11 {
                text::unsigned_value(parts[11], 0xffff) == Some(m.port_ipv6)
            } else {
                m.port_ipv6 == 19133
            }
            &&& if parts.len() > 12 {
                m.extra == parts.subrange(12, parts.len() as int)
            } else {
                m.extra.len() == 0
            }
        },
{
    reveal_strlit("");
    let parts = text::split_terminated(s, ';');
    if parts.len() > 12 {
        assert(parts.skip(12) =~= parts.subrange(12, parts.len() as int));
    }
    assert(""@ =~= Seq::<char>::empty());
}

/// A string is refused only for having fewer than seven components, or else for a component that
/// should be a number of its range and is not, which is told together with its place.
pub proof fn refusals_name_the_fault(s: Seq<char>)
    ensures
        ({
            let parts = text::split_terminated(s, ';');
            let bad = |i: int, max: nat|
                i < parts.len() && text::unsigned_value(parts[i], max) is None;
            match identifier_of(s) {
                Ok(_) => {
                    &&& parts.len() >= 7
                    &&& !bad(2, 0xffff_ffff) && !bad(4, 0xffff_ffff) && !bad(5, 0xffff_ffff)
                    &&& !bad(6, 0xffff_ffff_ffff_ffff) && !bad(9, 0xffff_ffff)
                    &&& !bad(10, 0xffff) && !bad(11, 0xffff)
                },
                Err(IdentifierErrorModel::TooFewParts(n)) => n == parts.len() && n < 7,
                Err(IdentifierErrorModel::ParseIntError { field, value }) => {
                    &&& parts.len() >= 7
                    &&& {
                        ||| field == "protocol_version"@ && value == parts[2] && bad(2, 0xffff_ffff)
                        ||| field == "player_count"@ && value == parts[4] && bad(4, 0xffff_ffff)
                        ||| field == "max_player_count"@ && value == parts[5] && bad(5, 0xffff_ffff)
                        ||| field == "server_guid"@ && value == parts[6] && bad(
                            6,
                            0xffff_ffff_ffff_ffff,
                        )
                        ||| field == "game_mode_numeric"@ && value == parts[9] && bad(
                            9,
                            0xffff_ffff,
                        )
                        ||| field == "port_ipv4"@ && value == parts[10] && bad(10, 0xffff)
                        ||| field == "port_ipv6"@ && value == parts[11] && bad(11, 0xffff)
                    }
                },
            }
        }),
{
}

/// An advertisement is known by all that it says, numbers and texts alike.
pub proof fn advertisement_is_all_it_says(i: BedrockIdentifier, k: int)
    ensures
        i@.edition == i.edition@,
        i@.server_name == i.server_name@,
        i@.protocol_version == i.protocol_version,
        i@.version_name == i.version_name@,
        i@.player_count == i.player_count,
        i@.max_player_count == i.max_player_count,
        i@.server_guid == i.server_guid,
        i@.sub_name == i.sub_name@,
        i@.game_mode == i.game_mode@,
        i@.game_mode_numeric == i.game_mode_numeric,
        i@.port_ipv4 == i.port_ipv4,
        i@.port_ipv6 == i.port_ipv6,
        i@.extra.len() == i.extra@.len(),
        0 <= k < i.extra@.len() ==> i@.extra[k] == i.extra@[k]@,
{
}

/// What an error says: what is wrong, in fixed words, and the number or the component that tells
/// more.
pub proof fn error_says_what_is_wrong(e: IdentifierError)
    ensures
        match e {
            IdentifierError::TooFewParts(n) => e@.message()
                == "Identifier string has too few components: "@ + text::decimal(n as nat),
            IdentifierError::ParseIntError { field, value } => e@.message()
                == "Failed to parse integer field '"@ + field@ + "': "@ + value@,
        },
{
}

/// Of several components that should be numbers and are not, the first is the one that is told: all
/// numbers before it could be read.
pub proof fn first_fault_is_told(s: Seq<char>)
    ensures
        identifier_of(s) matches Err(IdentifierErrorModel::ParseIntError { field, value }) ==> {
            let parts = text::split_terminated(s, ';');
            let good = |i: int, max: nat|
                i >= parts.len() || text::unsigned_value(parts[i], max) is Some;
            &&& {
                ||| field == "protocol_version"@ && value == parts[2] && !good(2, 0xffff_ffff)
                ||| good(2, 0xffff_ffff) && field == "player_count"@ && value == parts[4] && !good(
                    4,
                    0xffff_ffff,
                )
                ||| good(2, 0xffff_ffff) && good(4, 0xffff_ffff) && field == "max_player_count"@
                    && value == parts[5] && !good(5, 0xffff_ffff)
                ||| good(2, 0xffff_ffff) && good(4, 0xffff_ffff) && good(5, 0xffff_ffff) && field
                    == "server_guid"@ && value == parts[6] && !good(6, 0xffff_ffff_ffff_ffff)
                ||| good(2, 0xffff_ffff) && good(4, 0xffff_ffff) && good(5, 0xffff_ffff) && good(
                    6,
                    0xffff_ffff_ffff_ffff,
                ) && field == "game_mode_numeric"@ && value == parts[9] && !good(9, 0xffff_ffff)
                ||| good(2, 0xffff_ffff) && good(4, 0xffff_ffff) && good(5, 0xffff_ffff) && good(
                    6,
                    0xffff_ffff_ffff_ffff,
                ) && good(9, 0xffff_ffff) && field == "port_ipv4"@ && value == parts[10] && !good(
                    10,
                    0xffff,
                )
                ||| good(2, 0xffff_ffff) && good(4, 0xffff_ffff) && good(5, 0xffff_ffff) && good(
                    6,
                    0xffff_ffff_ffff_ffff,
                ) && good(9, 0xffff_ffff) && good(10, 0xffff) && field == "port_ipv6"@ && value
                    == parts[11] && !good(11, 0xffff)
            }
        },
{
}

/// Two advertisements count as equal exactly where they say the same in every field.
pub proof fn equal_advertisements_say_the_same(a: BedrockIdentifier, b: BedrockIdentifier)
    ensures
        vstd::std_specs::cmp::PartialEqSpec::eq_spec(&a, &b) <==> {
            &&& a.edition@ == b.edition@
            &&& a.server_name@ == b.server_name@
            &&& a.protocol_version == b.protocol_version
            &&& a.version_name@ == b.version_name@
            &&& a.player_count == b.player_count
            &&& a.max_player_count == b.max_player_count
            &&& a.server_guid == b.server_guid
            &&& a.sub_name@ == b.sub_name@
            &&& a.game_mode@ == b.game_mode@
            &&& a.game_mode_numeric == b.game_mode_numeric
            &&& a.port_ipv4 == b.port_ipv4
            &&& a.port_ipv6 == b.port_ipv6
            &&& text::views(a.extra@) == text::views(b.extra@)
        },
{
}

} // verus!
