//! Wake-on-LAN: MAC addresses, magic packets, and the datagrams that a wake-up request asks for.

use mac_address::MacAddress;
use vstd::prelude::*;
use vstd::slice::*;
use vstd::string::*;
use vstd::utf8::{
    decode_utf8, decode_utf8_encode_utf8, encode_utf8, encode_utf8_decode_utf8,
    encode_utf8_valid_utf8, is_ascii_chars, is_ascii_chars_encode_utf8, valid_utf8,
};

use crate::text::{ascii_lower, ascii_lowered, chars_of, decimal, join, number_text};

verus! {

/// What `Utf8Error` displays for bytes that are no text.
pub uninterp spec fn utf8_error_text(bytes: Seq<u8>) -> Seq<char>;

/// What `ParseIntError` displays for a text that is no hexadecimal byte.
pub uninterp spec fn hex_error_text(text: Seq<char>) -> Seq<char>;

/// The value of a hexadecimal digit of either case.
pub open spec fn hex_digit(c: char) -> Option<nat> {
    if '0' <= c <= '9' {
        Some((c as int - '0' as int) as nat)
    } else if 'a' <= c <= 'f' {
        Some((c as int - 'a' as int + 10) as nat)
    } else if 'A' <= c <= 'F' {
        Some((c as int - 'A' as int + 10) as nat)
    } else {
        None
    }
}

/// The value of a run of hexadecimal digits, if it is one.
pub open spec fn hex_digits(s: Seq<char>) -> Option<nat>
    decreases s.len(),
{
    if s.len() == 0 {
        Some(0)
    } else {
        match (hex_digits(s.drop_last()), hex_digit(s.last())) {
            (Some(high), Some(low)) => Some(16 * high + low),
            _ => None,
        }
    }
}

/// The byte that a text spells in hexadecimal: an optional plus sign, then at least one digit,
/// and a value that a byte can hold.
pub open spec fn hex_byte(text: Seq<char>) -> Option<u8> {
    let digits = if text.len() > 0 && text[0] == '+' {
        text.drop_first()
    } else {
        text
    };
    if digits.len() == 0 {
        None
    } else {
        match hex_digits(digits) {
            Some(value) => if value <= 255 {
                Some(value as u8)
            } else {
                None
            },
            None => None,
        }
    }
}

/// `std::str::from_utf8`: the text that the bytes encode, or, where they encode none, the text
/// of the error, which is a function of the bytes.
#[verifier::external_body]
fn utf8_text(bytes: &[u8]) -> (r: Result<&str, String>)
    ensures
        match r {
            Ok(text) => valid_utf8(bytes@) && text@ == decode_utf8(bytes@),
            Err(error) => !valid_utf8(bytes@) && error@ == utf8_error_text(bytes@),
        },
{
    std::str::from_utf8(bytes).map_err(|error| error.to_string())
}

/// `u8::from_str_radix` with radix sixteen: the byte that the text spells, or, where it spells
/// none, the text of the error, which is a function of the text.
#[verifier::external_body]
fn parse_hex_byte(text: &str) -> (r: Result<u8, String>)
    ensures
        match r {
            Ok(value) => hex_byte(text@) == Some(value),
            Err(error) => hex_byte(text@) is None && error@ == hex_error_text(text@),
        },
{
    u8::from_str_radix(text, 16).map_err(|error| error.to_string())
}

/// Whether a character separates the bytes of a MAC address.
pub open spec fn is_separator(c: char) -> bool {
    c == ':' || c == '-'
}

/// A MAC address without its separators.
pub open spec fn without_separators(mac: Seq<char>) -> Seq<char>
    decreases mac.len(),
{
    if mac.len() == 0 {
        Seq::empty()
    } else if is_separator(mac.last()) {
        without_separators(mac.drop_last())
    } else {
        without_separators(mac.drop_last()).push(mac.last())
    }
}

/// The byte in a pair of encoded characters, or why there is none.
pub open spec fn pair_value(pair: Seq<u8>) -> Result<u8, Seq<char>> {
    if !valid_utf8(pair) {
        Err(utf8_error_text(pair))
    } else {
        match hex_byte(decode_utf8(pair)) {
            Some(value) => Ok(value),
            None => Err(hex_error_text(decode_utf8(pair))),
        }
    }
}

/// The bytes in the first `n` pairs of `encoded`, or why there are none: the first pair that is
/// no byte decides.
pub open spec fn pair_values(encoded: Seq<u8>, n: nat) -> Result<Seq<u8>, Seq<char>>
    decreases n,
{
    if n == 0 {
        Ok(Seq::empty())
    } else {
        match pair_values(encoded, (n - 1) as nat) {
            Err(error) => Err(error),
            Ok(values) => match pair_value(encoded.subrange(2 * n - 2, 2 * n as int)) {
                Err(error) => Err(error),
                Ok(value) => Ok(values.push(value)),
            },
        }
    }
}

/// The six bytes of a MAC address, or why there are none.
pub open spec fn mac_bytes(mac: Seq<char>) -> Result<Seq<u8>, Seq<char>> {
    let encoded = encode_utf8(without_separators(mac));
    if encoded.len() != 12 {
        Err("Invalid MAC address: "@ + mac)
    } else {
        pair_values(encoded, 6)
    }
}

/// The magic packet for six address bytes: six times 255, then the address sixteen times.
pub open spec fn magic_packet(address: Seq<u8>) -> Seq<u8> {
    Seq::new(6, |i: int| 255u8) + Seq::new(96, |i: int| address[i % 6])
}

/// The magic packet for a MAC address, or why there is none.
pub open spec fn magic_packet_for(mac: Seq<char>) -> Result<Seq<u8>, Seq<char>> {
    match mac_bytes(mac) {
        Ok(address) => Ok(magic_packet(address)),
        Err(error) => Err(error),
    }
}

/// A result with its bytes and the text of its error taken by their views.
pub open spec fn bytes_result(r: Result<Vec<u8>, String>) -> Result<Seq<u8>, Seq<char>> {
    match r {
        Ok(bytes) => Ok(bytes@),
        Err(error) => Err(error@),
    }
}

/// The magic packet for a MAC address.
pub fn build_magic_packet(mac: &str) -> (r: Result<Vec<u8>, String>)
    ensures
        bytes_result(r) == magic_packet_for(mac@),
{
    let cleaned = clean_mac(mac);
    let encoded = cleaned.as_str().as_bytes();
    if encoded.len() != 12 {
        return Err(join("Invalid MAC address: ", mac));
    }
    let mut address: Vec<u8> = Vec::new();
    let mut k: usize = 0;
    while k < 6
        invariant
            k <= 6,
            encoded@.len() == 12,
            encoded@ == encode_utf8(without_separators(mac@)),
            address@.len() == k,
            pair_values(encoded@, k as nat) == Ok::<Seq<u8>, Seq<char>>(address@),
        decreases 6 - k,
    {
        let pair = slice_subrange(encoded, 2 * k, 2 * k + 2);
        assert(pair@ == encoded@.subrange(2 * (k + 1) - 2, 2 * (k + 1)));
        let value = match utf8_text(pair) {
            Err(error) => {
                proof {
                    lemma_pair_error(encoded@, (k + 1) as nat, 6);
                }
                return Err(error);
            },
            Ok(text) => match parse_hex_byte(text) {
                Err(error) => {
                    proof {
                        lemma_pair_error(encoded@, (k + 1) as nat, 6);
                    }
                    return Err(error);
                },
                Ok(value) => value,
            },
        };
        address.push(value);
        k = k + 1;
    }
    let mut packet: Vec<u8> = Vec::new();
    let mut i: usize = 0;
    while i < 6
        invariant
            i <= 6,
            packet@ == Seq::new(i as nat, |j: int| 255u8),
        decreases 6 - i,
    {
        packet.push(0xFF);
        i = i + 1;
    }
    let mut round: usize = 0;
    while round < 16
        invariant
            round <= 16,
            address@.len() == 6,
            packet@ == Seq::new(6, |j: int| 255u8) + Seq::new(
                (6 * round) as nat,
                |j: int| address@[j % 6],
            ),
        decreases 16 - round,
    {
        packet.extend_from_slice(address.as_slice());
        assert(packet@ == Seq::new(6, |j: int| 255u8) + Seq::new(
            (6 * (round + 1)) as nat,
            |j: int| address@[j % 6],
        ));
        round = round + 1;
    }
    assert(packet@ == magic_packet(address@));
    Ok(packet)
}

/// An error in the first pairs is the error of all of them.
proof fn lemma_pair_error(encoded: Seq<u8>, n: nat, m: nat)
    requires
        n <= m,
        pair_values(encoded, n) is Err,
    ensures
        pair_values(encoded, m) == pair_values(encoded, n),
    decreases m - n,
{
    if n < m {
        lemma_pair_error(encoded, n, (m - 1) as nat);
    }
}

/// A MAC address without its separators.
fn clean_mac(mac: &str) -> (r: String)
    ensures
        r@ == without_separators(mac@),
{
    let chars = chars_of(mac);
    let mut out = String::new();
    let mut i: usize = 0;
    while i < chars.len()
        invariant
            chars@ == mac@,
            i <= chars@.len(),
            out@ == without_separators(mac@.take(i as int)),
        decreases chars@.len() - i,
    {
        let c: char = chars[i];
        assert(mac@.take(i + 1).drop_last() == mac@.take(i as int));
        if c != ':' && c != '-' {
            out.push(c);
        }
        i = i + 1;
    }
    assert(mac@.take(i as int) == mac@);
    out
}

/// The upper-case hexadecimal digit of `d`.
pub open spec fn upper_hex(d: int) -> char {
    if d < 10 {
        (48 + d) as char
    } else {
        (55 + d) as char
    }
}

/// A byte in two upper-case hexadecimal digits.
pub open spec fn hex_pair(b: u8) -> Seq<char> {
    seq![upper_hex(b as int / 16), upper_hex(b as int % 16)]
}

/// Six address bytes as the usual text, in upper case and with colons.
pub open spec fn mac_text(address: Seq<u8>) -> Seq<char> {
    hex_pair(address[0]) + seq![':'] + hex_pair(address[1]) + seq![':'] + hex_pair(address[2])
        + seq![':'] + hex_pair(address[3]) + seq![':'] + hex_pair(address[4]) + seq![':']
        + hex_pair(address[5])
}

/// `mac_address::MacAddress` displays its bytes in upper case, with colons between them.
#[verifier::external_body]
fn display_mac(address: [u8; 6]) -> (text: String)
    ensures
        text@ == mac_text(address@),
{
    MacAddress::new(address).to_string()
}

/// Whether six address bytes are those of a device: a device without an address shows zeros.
pub open spec fn is_device_address(address: Seq<u8>) -> bool {
    address.len() == 6 && exists|i: int| 0 <= i < 6 && #[trigger] address[i] != 0
}

/// `mac_address::get_mac_address`: the address of the first network device that has one, which is
/// never all zeros; none where no device has one or the devices cannot be listed.
///
/// The machine decides which of these it is.
#[verifier::external_body]
fn read_mac_address() -> (address: Option<[u8; 6]>)
    ensures
        address matches Some(bytes) ==> is_device_address(bytes@),
{
    mac_address::get_mac_address().ok().flatten().map(|address| address.bytes())
}

/// The text for the address of a machine; nothing where it has none.
pub fn mac_address_text(address: Option<[u8; 6]>) -> (r: String)
    ensures
        match address {
            Some(bytes) => r@ == mac_text(bytes@),
            None => r@ == Seq::<char>::empty(),
        },
{
    match address {
        Some(bytes) => display_mac(bytes),
        None => String::new(),
    }
}

/// Whether `text` is what a fresh configuration may hold for the machine's own address: that of a
/// device, or nothing.
pub open spec fn is_own_mac(text: Seq<char>) -> bool {
    text.len() == 0 || exists|address: Seq<u8>|
        is_device_address(address) && text == #[trigger] mac_text(address)
}

/// The text for this machine's own address: that of its first network device that has one, and
/// nothing where none has. The machine decides.
pub fn default_mac_address() -> (r: String)
    ensures
        is_own_mac(r@),
{
    let address = read_mac_address();
    let text = mac_address_text(address);
    proof {
        if let Some(bytes) = address {
            assert(is_device_address(bytes@));
        }
    }
    text
}

/// A request to wake machines up.
pub struct ReplyWakeUp {
    pub mac_list: Vec<String>,
    pub broadcast_ips: Vec<String>,
    pub port: u16,
    pub repeat: u8,
}

/// The model of [`ReplyWakeUp`].
pub struct WakeUpModel {
    pub mac_list: Seq<Seq<char>>,
    pub broadcast_ips: Seq<Seq<char>>,
    pub port: u16,
    pub repeat: u8,
}

/// A list of texts, taken by their views.
pub open spec fn texts(list: Seq<String>) -> Seq<Seq<char>> {
    list.map_values(|text: String| text@)
}

impl View for ReplyWakeUp {
    type V = WakeUpModel;

    open spec fn view(&self) -> WakeUpModel {
        WakeUpModel {
            mac_list: texts(self.mac_list@),
            broadcast_ips: texts(self.broadcast_ips@),
            port: self.port,
            repeat: self.repeat,
        }
    }
}

/// A packet, where to send it, and how many times.
pub struct Datagram {
    pub target: String,
    pub packet: Vec<u8>,
    pub copies: u8,
}

/// The model of [`Datagram`].
#[verifier::ext_equal]
pub struct DatagramModel {
    pub target: Seq<char>,
    pub packet: Seq<u8>,
    pub copies: u8,
}

impl View for Datagram {
    type V = DatagramModel;

    open spec fn view(&self) -> DatagramModel {
        DatagramModel { target: self.target@, packet: self.packet@, copies: self.copies }
    }
}

/// What a wake-up request comes to: the datagrams to send, in order, and what to answer once
/// they are all sent.
pub struct WakePlan {
    pub datagrams: Vec<Datagram>,
    pub outcome: Result<(), String>,
}

/// A list of datagrams, taken by their views.
pub open spec fn datagram_models(list: Seq<Datagram>) -> Seq<DatagramModel> {
    list.map_values(|datagram: Datagram| datagram@)
}

/// An outcome with the text of its error taken by its view.
pub open spec fn outcome_model(r: Result<(), String>) -> Result<(), Seq<char>> {
    match r {
        Ok(_) => Ok(()),
        Err(error) => Err(error@),
    }
}

impl WakeUpModel {
    /// How many addresses at the head of the list are valid.
    pub open spec fn valid_macs(self) -> nat {
        leading_valid(self.mac_list)
    }

    /// The datagram for one broadcast address and one valid MAC address.
    pub open spec fn datagram(self, broadcast: Seq<char>, mac: Seq<char>) -> DatagramModel {
        DatagramModel {
            target: broadcast + ":"@ + decimal(self.port as int),
            packet: magic_packet_for(mac)->Ok_0,
            copies: if self.repeat == 0 {
                1
            } else {
                self.repeat
            },
        }
    }

    /// The datagrams to one broadcast address for the first `n` MAC addresses.
    pub open spec fn row(self, broadcast: Seq<char>, n: nat) -> Seq<DatagramModel> {
        Seq::new(n, |i: int| self.datagram(broadcast, self.mac_list[i]))
    }

    /// The datagrams to the first `k` broadcast addresses for all MAC addresses.
    pub open spec fn rows(self, k: nat) -> Seq<DatagramModel>
        decreases k,
    {
        if k == 0 {
            Seq::empty()
        } else {
            self.rows((k - 1) as nat) + self.row(self.broadcast_ips[k - 1], self.mac_list.len())
        }
    }

    /// The datagrams that the request asks for: every broadcast address gets the packet of every
    /// MAC address. An invalid MAC address ends the work at its first turn.
    pub open spec fn datagrams(self) -> Seq<DatagramModel> {
        if self.valid_macs() == self.mac_list.len() {
            self.rows(self.broadcast_ips.len())
        } else if self.broadcast_ips.len() == 0 {
            Seq::empty()
        } else {
            self.row(self.broadcast_ips[0], self.valid_macs())
        }
    }

    /// What to answer: the error of the first invalid MAC address, where its turn comes.
    pub open spec fn outcome(self) -> Result<(), Seq<char>> {
        if self.valid_macs() == self.mac_list.len() || self.broadcast_ips.len() == 0 {
            Ok(())
        } else {
            Err(magic_packet_for(self.mac_list[self.valid_macs() as int])->Err_0)
        }
    }
}

/// How many addresses at the head of a list are valid.
pub open spec fn leading_valid(macs: Seq<Seq<char>>) -> nat
    decreases macs.len(),
{
    if macs.len() == 0 || magic_packet_for(macs[0]) is Err {
        0
    } else {
        1 + leading_valid(macs.drop_first())
    }
}

/// The head of a list is valid exactly up to its first invalid address.
proof fn lemma_leading_valid(macs: Seq<Seq<char>>, k: int)
    requires
        0 <= k <= macs.len(),
        forall|i: int| 0 <= i < k ==> magic_packet_for(#[trigger] macs[i]) is Ok,
        k < macs.len() ==> magic_packet_for(macs[k]) is Err,
    ensures
        leading_valid(macs) == k,
    decreases macs.len(),
{
    if k > 0 {
        let rest = macs.drop_first();
        assert(magic_packet_for(macs[0]) is Ok);
        assert forall|i: int| 0 <= i < k - 1 implies magic_packet_for(#[trigger] rest[i]) is Ok by {
            assert(rest[i] == macs[i + 1]);
        }
        if k < macs.len() {
            assert(rest[k - 1] == macs[k]);
        }
        lemma_leading_valid(rest, k - 1);
    }
}

/// What a wake-up request comes to.
pub fn plan_wake_up(payload: &ReplyWakeUp) -> (plan: WakePlan)
    ensures
        datagram_models(plan.datagrams@) == payload@.datagrams(),
        outcome_model(plan.outcome) == payload@.outcome(),
{
    let mut datagrams: Vec<Datagram> = Vec::new();
    let copies: u8 = if payload.repeat == 0 {
        1
    } else {
        payload.repeat
    };
    let mut b: usize = 0;
    assert(datagram_models(datagrams@) == payload@.rows(0));
    while b < payload.broadcast_ips.len()
        invariant
            b <= payload.broadcast_ips@.len(),
            copies == if payload.repeat == 0 {
                1u8
            } else {
                payload.repeat
            },
            datagram_models(datagrams@) == payload@.rows(b as nat),
            b > 0 ==> payload@.valid_macs() == payload@.mac_list.len(),
        decreases payload.broadcast_ips@.len() - b,
    {
        let ghost before = datagrams@;
        let mut m: usize = 0;
        assert(datagram_models(before) == datagram_models(before) + payload@.row(
            payload@.broadcast_ips[b as int],
            0,
        ));
        while m < payload.mac_list.len()
            invariant
                b < payload.broadcast_ips@.len(),
                m <= payload.mac_list@.len(),
                copies == if payload.repeat == 0 {
                    1u8
                } else {
                    payload.repeat
                },
                datagram_models(before) == payload@.rows(b as nat),
                b > 0 ==> payload@.valid_macs() == payload@.mac_list.len(),
                datagram_models(datagrams@) == datagram_models(before) + payload@.row(
                    payload@.broadcast_ips[b as int],
                    m as nat,
                ),
                forall|i: int|
                    0 <= i < m ==> magic_packet_for(#[trigger] payload@.mac_list[i]) is Ok,
            decreases payload.mac_list@.len() - m,
        {
            let mac = payload.mac_list[m].as_str();
            assert(mac@ == payload@.mac_list[m as int]);
            match build_magic_packet(mac) {
                Err(error) => {
                    proof {
                        lemma_leading_valid(payload@.mac_list, m as int);
                        assert(b == 0);
                        assert(datagram_models(datagrams@) == payload@.row(
                            payload@.broadcast_ips[0],
                            m as nat,
                        ));
                    }
                    return WakePlan { datagrams, outcome: Err(error) };
                },
                Ok(packet) => {
                    let mut target = join(payload.broadcast_ips[b].as_str(), ":");
                    target.append(number_text(payload.port as i128).as_str());
                    let ghost sofar = datagrams@;
                    datagrams.push(Datagram { target, packet, copies });
                    proof {
                        let broadcast = payload@.broadcast_ips[b as int];
                        assert(datagrams@.last()@ == payload@.datagram(
                            broadcast,
                            payload@.mac_list[m as int],
                        ));
                        assert(datagram_models(datagrams@) == datagram_models(sofar).push(
                            datagrams@.last()@,
                        ));
                        assert(payload@.row(broadcast, (m + 1) as nat) == payload@.row(
                            broadcast,
                            m as nat,
                        ).push(payload@.datagram(broadcast, payload@.mac_list[m as int])));
                    }
                },
            }
            m = m + 1;
        }
        proof {
            lemma_leading_valid(payload@.mac_list, payload@.mac_list.len() as int);
        }
        b = b + 1;
    }
    proof {
        if payload@.valid_macs() != payload@.mac_list.len() {
            assert(payload@.broadcast_ips.len() == 0);
        }
    }
    WakePlan { datagrams, outcome: Ok(()) }
}

/// The datagrams to the first `k` broadcast addresses stand in order, one for each MAC address.
proof fn lemma_rows(payload: WakeUpModel, k: nat)
    requires
        k <= payload.broadcast_ips.len(),
    ensures
        payload.rows(k).len() == k * payload.mac_list.len(),
        forall|b: int, m: int|
            #![trigger payload.broadcast_ips[b], payload.mac_list[m]]
            0 <= b < k && 0 <= m < payload.mac_list.len() ==> payload.rows(k)[b
                * payload.mac_list.len() + m] == payload.datagram(
                payload.broadcast_ips[b],
                payload.mac_list[m],
            ),
    decreases k,
{
    let n = payload.mac_list.len();
    if k > 0 {
        let before = (k - 1) as nat;
        lemma_rows(payload, before);
        assert(before * n + n == k * n) by (nonlinear_arith)
            requires
                k == before + 1,
        ;
        assert forall|b: int, m: int|
            #![trigger payload.broadcast_ips[b], payload.mac_list[m]]
            0 <= b < k && 0 <= m < n implies payload.rows(k)[b * n + m] == payload.datagram(
            payload.broadcast_ips[b],
            payload.mac_list[m],
        ) by {
            if b < before {
                assert(0 <= b * n + m < before * n) by (nonlinear_arith)
                    requires
                        0 <= b,
                        b + 1 <= before,
                        0 <= m < n,
                ;
            }
        }
    }
}

/// Every broadcast address gets the packet of every MAC address, in order, if all of them are
/// valid.
pub proof fn law_every_packet_goes_everywhere(payload: WakeUpModel, b: int, m: int)
    requires
        forall|i: int|
            0 <= i < payload.mac_list.len() ==> magic_packet_for(#[trigger] payload.mac_list[i]) is Ok,
        0 <= b < payload.broadcast_ips.len(),
        0 <= m < payload.mac_list.len(),
    ensures
        payload.datagrams().len() == payload.broadcast_ips.len() * payload.mac_list.len(),
        payload.datagrams()[b * payload.mac_list.len() + m] == payload.datagram(
            payload.broadcast_ips[b],
            payload.mac_list[m],
        ),
{
    lemma_leading_valid(payload.mac_list, payload.mac_list.len() as int);
    lemma_rows(payload, payload.broadcast_ips.len());
}

proof fn lemma_leading_are_valid(macs: Seq<Seq<char>>)
    ensures
        leading_valid(macs) <= macs.len(),
        forall|i: int|
            0 <= i < leading_valid(macs) ==> magic_packet_for(#[trigger] macs[i]) is Ok,
        leading_valid(macs) < macs.len() ==> magic_packet_for(
            macs[leading_valid(macs) as int],
        ) is Err,
    decreases macs.len(),
{
    if macs.len() > 0 && magic_packet_for(macs[0]) is Ok {
        let rest = macs.drop_first();
        lemma_leading_are_valid(rest);
        assert forall|i: int| 0 <= i < leading_valid(macs) implies magic_packet_for(
            #[trigger] macs[i],
        ) is Ok by {
            if i > 0 {
                assert(macs[i] == rest[i - 1]);
            }
        }
        if leading_valid(macs) < macs.len() {
            assert(macs[leading_valid(macs) as int] == rest[leading_valid(rest) as int]);
        }
    }
}

/// A request succeeds exactly if all its MAC addresses are valid, or there is nowhere to send to;
/// the error is that of the first invalid one.
pub proof fn law_valid_requests_succeed(payload: WakeUpModel)
    ensures
        payload.outcome() is Ok <==> {
            ||| payload.broadcast_ips.len() == 0
            ||| forall|i: int|
                0 <= i < payload.mac_list.len() ==> magic_packet_for(
                    #[trigger] payload.mac_list[i],
                ) is Ok
        },
        payload.outcome() is Err ==> exists|i: int|
            {
                &&& 0 <= i < payload.mac_list.len()
                &&& magic_packet_for(#[trigger] payload.mac_list[i]) is Err
                &&& payload.outcome()->Err_0 == magic_packet_for(payload.mac_list[i])->Err_0
                &&& forall|j: int|
                    0 <= j < i ==> magic_packet_for(#[trigger] payload.mac_list[j]) is Ok
            },
{
    lemma_leading_are_valid(payload.mac_list);
    if payload.outcome() is Err {
        let i = payload.valid_macs() as int;
        assert(magic_packet_for(payload.mac_list[i]) is Err);
    }
}

/// A magic packet is 102 bytes: a head of six times 255, and the address in each of sixteen
/// places behind it.
pub proof fn law_magic_packet_layout(address: Seq<u8>)
    requires
        address.len() == 6,
    ensures
        magic_packet(address).len() == 102,
        forall|i: int| 0 <= i < 6 ==> magic_packet(address)[i] == 255,
        forall|round: int|
            0 <= round < 16 ==> #[trigger] magic_packet(address).subrange(
                6 + 6 * round,
                12 + 6 * round,
            ) == address,
{
    assert forall|round: int| 0 <= round < 16 implies #[trigger] magic_packet(address).subrange(
        6 + 6 * round,
        12 + 6 * round,
    ) == address by {
        assert(magic_packet(address).subrange(6 + 6 * round, 12 + 6 * round) =~= address);
    }
}

/// Separators do not matter: two spellings with the same digits are both valid or both not, and
/// have one magic packet. Where there are as many digits as it takes, they also share the error.
pub proof fn law_separators_do_not_matter(a: Seq<char>, b: Seq<char>)
    requires
        without_separators(a) == without_separators(b),
    ensures
        magic_packet_for(b) is Ok <==> magic_packet_for(a) is Ok,
        magic_packet_for(a) is Ok ==> magic_packet_for(b) == magic_packet_for(a),
        encode_utf8(without_separators(a)).len() == 12 ==> magic_packet_for(b) == magic_packet_for(
            a,
        ),
{
}

/// The values of the pairs are as many as the pairs, and there are some only if each pair has one.
proof fn lemma_pair_values(encoded: Seq<u8>, n: nat)
    requires
        pair_values(encoded, n) is Ok,
    ensures
        pair_values(encoded, n)->Ok_0.len() == n,
        forall|k: int|
            0 <= k < n ==> pair_value(#[trigger] encoded.subrange(2 * k, 2 * k + 2)) is Ok,
    decreases n,
{
    if n > 0 {
        lemma_pair_values(encoded, (n - 1) as nat);
        assert(encoded.subrange(2 * n - 2, 2 * n as int) == encoded.subrange(
            2 * (n - 1),
            2 * (n - 1) + 2,
        ));
    }
}

/// The magic packet of an address is 102 bytes: six times 255, and sixteen times the six bytes
/// that follow them.
pub proof fn law_a_magic_packet_repeats_one_address(mac: Seq<char>)
    requires
        magic_packet_for(mac) is Ok,
    ensures
        magic_packet_for(mac)->Ok_0.len() == 102,
        forall|i: int| 0 <= i < 6 ==> magic_packet_for(mac)->Ok_0[i] == 255,
        forall|i: int|
            6 <= i < 102 ==> #[trigger] magic_packet_for(mac)->Ok_0[i] == magic_packet_for(
                mac,
            )->Ok_0[6 + (i - 6) % 6],
{
}

/// A run of hexadecimal digits is ASCII text.
proof fn lemma_hex_is_ascii(s: Seq<char>)
    requires
        hex_digits(s) is Some,
    ensures
        is_ascii_chars(s),
    decreases s.len(),
{
    if s.len() > 0 {
        lemma_hex_is_ascii(s.drop_last());
        assert forall|i: int| 0 <= i < s.len() implies '\0' <= #[trigger] s[i] <= '\u{7f}' by {
            if i < s.len() - 1 {
                assert(s.drop_last()[i] == s[i]);
            }
        }
    }
}

/// Bytes that are the characters of an ASCII text encode it.
proof fn lemma_ascii_bytes(bytes: Seq<u8>, text: Seq<char>)
    requires
        is_ascii_chars(text),
        bytes.len() == text.len(),
        forall|i: int| 0 <= i < text.len() ==> #[trigger] bytes[i] == text[i] as u8,
    ensures
        encode_utf8(text) == bytes,
        valid_utf8(bytes),
        decode_utf8(bytes) == text,
{
    is_ascii_chars_encode_utf8(text);
    assert(encode_utf8(text) == bytes);
    encode_utf8_valid_utf8(text);
    encode_utf8_decode_utf8(text);
}

/// A pair that is a byte is ASCII.
proof fn lemma_pair_is_ascii(pair: Seq<u8>)
    requires
        pair.len() == 2,
        pair_value(pair) is Ok,
    ensures
        pair[0] <= 127,
        pair[1] <= 127,
{
    let text = decode_utf8(pair);
    if text[0] == '+' {
        lemma_hex_is_ascii(text.drop_first());
        assert(text == seq!['+'] + text.drop_first());
    } else {
        lemma_hex_is_ascii(text);
    }
    assert(is_ascii_chars(text));
    is_ascii_chars_encode_utf8(text);
    decode_utf8_encode_utf8(pair);
    assert(pair[0] == text[0] as u8);
    assert(pair[1] == text[1] as u8);
}

/// The case of hexadecimal digits does not matter.
proof fn lemma_hex_case(s: Seq<char>, t: Seq<char>)
    requires
        s.len() == t.len(),
        forall|i: int| 0 <= i < s.len() ==> ascii_lower(#[trigger] s[i]) == ascii_lower(t[i]),
    ensures
        hex_digits(s) == hex_digits(t),
    decreases s.len(),
{
    if s.len() > 0 {
        assert forall|i: int| 0 <= i < s.len() - 1 implies ascii_lower(
            #[trigger] s.drop_last()[i],
        ) == ascii_lower(t.drop_last()[i]) by {
            assert(s.drop_last()[i] == s[i]);
        }
        lemma_hex_case(s.drop_last(), t.drop_last());
        assert(ascii_lower(s[s.len() - 1]) == ascii_lower(t[t.len() - 1]));
        assert(hex_digit(s.last()) == hex_digit(t.last()));
    }
}

/// Two spellings of one byte have one value.
proof fn lemma_hex_byte_case(s: Seq<char>, t: Seq<char>)
    requires
        s.len() == t.len(),
        s.len() > 0,
        forall|i: int| 0 <= i < s.len() ==> ascii_lower(#[trigger] s[i]) == ascii_lower(t[i]),
    ensures
        hex_byte(s) == hex_byte(t),
{
    assert(ascii_lower(s[0]) == ascii_lower(t[0]));
    assert(s[0] == '+' <==> t[0] == '+');
    if s[0] == '+' {
        assert forall|i: int| 0 <= i < s.len() - 1 implies ascii_lower(
            #[trigger] s.drop_first()[i],
        ) == ascii_lower(t.drop_first()[i]) by {
            assert(s.drop_first()[i] == s[i + 1]);
        }
        lemma_hex_case(s.drop_first(), t.drop_first());
    } else {
        lemma_hex_case(s, t);
    }
}

/// Two encoded spellings have the same values in their pairs.
proof fn lemma_pairs_agree(a: Seq<u8>, b: Seq<u8>, n: nat)
    requires
        forall|k: int|
            0 <= k < n ==> pair_value(#[trigger] a.subrange(2 * k, 2 * k + 2)) == pair_value(
                b.subrange(2 * k, 2 * k + 2),
            ),
    ensures
        pair_values(a, n) == pair_values(b, n),
    decreases n,
{
    if n > 0 {
        lemma_pairs_agree(a, b, (n - 1) as nat);
        let k = n - 1;
        assert(a.subrange(2 * k, 2 * k + 2) == a.subrange(2 * n - 2, 2 * n as int));
        assert(b.subrange(2 * k, 2 * k + 2) == b.subrange(2 * n - 2, 2 * n as int));
    }
}

/// Letter case does not matter, and neither do separators: whatever is spelled like a valid
/// address up to these has its magic packet.
pub proof fn law_letter_case_does_not_matter(a: Seq<char>, b: Seq<char>)
    requires
        ascii_lowered(without_separators(a)) == ascii_lowered(without_separators(b)),
        magic_packet_for(a) is Ok,
    ensures
        magic_packet_for(b) == magic_packet_for(a),
{
    let s = without_separators(a);
    let t = without_separators(b);
    let encoded = encode_utf8(s);
    let other = encode_utf8(t);
    lemma_pair_values(encoded, 6);
    assert forall|i: int| 0 <= i < 12 implies #[trigger] encoded[i] <= 127 by {
        let k = i / 2;
        let pair = encoded.subrange(2 * k, 2 * k + 2);
        lemma_pair_is_ascii(pair);
        assert(encoded[i] == pair[i % 2]);
    }
    let text = Seq::new(12, |i: int| encoded[i] as char);
    lemma_ascii_bytes(encoded, text);
    encode_utf8_decode_utf8(s);
    assert(s == text);
    assert(s.len() == ascii_lowered(s).len());
    assert(t.len() == ascii_lowered(t).len());
    assert forall|i: int| 0 <= i < s.len() implies ascii_lower(#[trigger] s[i]) == ascii_lower(
        t[i],
    ) by {
        assert(ascii_lowered(s)[i] == ascii_lower(s[i]));
        assert(ascii_lowered(t)[i] == ascii_lower(t[i]));
    }
    assert forall|i: int| 0 <= i < t.len() implies '\0' <= #[trigger] t[i] <= '\u{7f}' by {
        assert('\0' <= s[i] <= '\u{7f}');
        assert(ascii_lower(s[i]) == ascii_lower(t[i]));
    }
    is_ascii_chars_encode_utf8(t);
    assert forall|k: int| 0 <= k < 6 implies pair_value(
        #[trigger] encoded.subrange(2 * k, 2 * k + 2),
    ) == pair_value(other.subrange(2 * k, 2 * k + 2)) by {
        let one = s.subrange(2 * k, 2 * k + 2);
        let two = t.subrange(2 * k, 2 * k + 2);
        assert forall|i: int| 0 <= i < 2 implies ascii_lower(#[trigger] one[i]) == ascii_lower(
            two[i],
        ) by {
            assert(one[i] == s[2 * k + i]);
        }
        lemma_ascii_bytes(encoded.subrange(2 * k, 2 * k + 2), one);
        lemma_ascii_bytes(other.subrange(2 * k, 2 * k + 2), two);
        lemma_hex_byte_case(one, two);
    }
    lemma_pairs_agree(encoded, other, 6);
}

proof fn lemma_without_separators_add(a: Seq<char>, b: Seq<char>)
    ensures
        without_separators(a + b) == without_separators(a) + without_separators(b),
    decreases b.len(),
{
    if b.len() == 0 {
        assert(a + b == a);
        assert(without_separators(a) + without_separators(b) == without_separators(a));
    } else {
        assert((a + b).drop_last() == a + b.drop_last());
        lemma_without_separators_add(a, b.drop_last());
        assert(without_separators(a + b) == without_separators(a) + without_separators(b));
    }
}

proof fn lemma_hex_pair(b: u8)
    ensures
        without_separators(hex_pair(b)) == hex_pair(b),
        hex_byte(hex_pair(b)) == Some(b),
        hex_pair(b)[0] as int <= 127,
        hex_pair(b)[1] as int <= 127,
{
    let text = hex_pair(b);
    assert(text.drop_last() == seq![text[0]]);
    assert(seq![text[0]].drop_last() == Seq::<char>::empty());
    reveal_with_fuel(without_separators, 3);
    assert(without_separators(text) == text);
    assert(hex_digit(upper_hex(b as int / 16)) == Some((b as int / 16) as nat));
    assert(hex_digit(upper_hex(b as int % 16)) == Some((b as int % 16) as nat));
    assert(hex_digits(seq![text[0]]) == Some((b as int / 16) as nat)) by {
        assert(hex_digits(Seq::<char>::empty()) == Some(0nat));
    }
    assert(hex_digits(text) == Some(b as nat));
}

/// The encoding of two hexadecimal digits is the pair that spells their byte.
proof fn lemma_encoded_pair(encoded: Seq<u8>, b: u8)
    requires
        encoded.len() == 2,
        encoded[0] == hex_pair(b)[0] as u8,
        encoded[1] == hex_pair(b)[1] as u8,
    ensures
        pair_value(encoded) == Ok::<u8, Seq<char>>(b),
{
    let text = hex_pair(b);
    lemma_hex_pair(b);
    is_ascii_chars_encode_utf8(text);
    assert(encode_utf8(text) == encoded);
    encode_utf8_valid_utf8(text);
    encode_utf8_decode_utf8(text);
}

/// The text for a machine's own address is a MAC address that can be woken up: its magic packet
/// is that of the address.
#[verifier::spinoff_prover]
pub proof fn law_own_address_can_be_woken(address: Seq<u8>)
    requires
        address.len() == 6,
    ensures
        magic_packet_for(mac_text(address)) == Ok::<Seq<u8>, Seq<char>>(magic_packet(address)),
{
    let h0 = hex_pair(address[0]);
    let h1 = hex_pair(address[1]);
    let h2 = hex_pair(address[2]);
    let h3 = hex_pair(address[3]);
    let h4 = hex_pair(address[4]);
    let h5 = hex_pair(address[5]);
    let colon = seq![':'];
    let t1 = h0 + colon + h1;
    let t2 = t1 + colon + h2;
    let t3 = t2 + colon + h3;
    let t4 = t3 + colon + h4;
    let digits = h0 + h1 + h2 + h3 + h4 + h5;
    lemma_hex_pair(address[0]);
    lemma_hex_pair(address[1]);
    lemma_hex_pair(address[2]);
    lemma_hex_pair(address[3]);
    lemma_hex_pair(address[4]);
    lemma_hex_pair(address[5]);
    reveal_with_fuel(without_separators, 2);
    assert(without_separators(colon) == Seq::<char>::empty());
    lemma_without_separators_add(h0, colon);
    lemma_without_separators_add(h0 + colon, h1);
    lemma_without_separators_add(t1, colon);
    lemma_without_separators_add(t1 + colon, h2);
    lemma_without_separators_add(t2, colon);
    lemma_without_separators_add(t2 + colon, h3);
    lemma_without_separators_add(t3, colon);
    lemma_without_separators_add(t3 + colon, h4);
    lemma_without_separators_add(t4, colon);
    lemma_without_separators_add(t4 + colon, h5);
    assert(mac_text(address) == t4 + colon + h5);
    assert(without_separators(mac_text(address)) == digits);
    is_ascii_chars_encode_utf8(digits);
    let encoded = encode_utf8(digits);
    assert(encoded.len() == 12);
    lemma_encoded_pair(encoded.subrange(0, 2), address[0]);
    lemma_encoded_pair(encoded.subrange(2, 4), address[1]);
    lemma_encoded_pair(encoded.subrange(4, 6), address[2]);
    lemma_encoded_pair(encoded.subrange(6, 8), address[3]);
    lemma_encoded_pair(encoded.subrange(8, 10), address[4]);
    lemma_encoded_pair(encoded.subrange(10, 12), address[5]);
    reveal_with_fuel(pair_values, 7);
    assert(pair_values(encoded, 6)->Ok_0 == address);
}

/// A MAC address without its separators is its other characters, in order.
pub proof fn law_only_separators_are_dropped(mac: Seq<char>)
    ensures
        without_separators(mac) == mac.filter(|c: char| c != ':' && c != '-'),
    decreases mac.len(),
{
    reveal(Seq::filter);
    if mac.len() > 0 {
        law_only_separators_are_dropped(mac.drop_last());
    }
}

/// A valid MAC address is twelve characters besides its separators, and each of its six bytes is
/// what its two characters spell: two hexadecimal digits of either case, or a plus sign and one.
pub proof fn law_the_digits_spell_the_address(mac: Seq<char>, k: int)
    requires
        mac_bytes(mac) is Ok,
        0 <= k < 6,
    ensures
        ({
            let digits = without_separators(mac);
            let high = hex_digit(digits[2 * k]);
            let low = hex_digit(digits[2 * k + 1]);
            &&& digits.len() == 12
            &&& mac_bytes(mac)->Ok_0.len() == 6
            &&& low is Some
            &&& digits[2 * k] == '+' || high is Some
            &&& mac_bytes(mac)->Ok_0[k] == if digits[2 * k] == '+' {
                low->Some_0
            } else {
                16 * high->Some_0 + low->Some_0
            }
        }),
{
    let digits = without_separators(mac);
    let encoded = encode_utf8(digits);
    lemma_encoded_digits(mac);
    lemma_pair_values(encoded, 6);
    lemma_pair_value_at(encoded, 6, k);
    let pair = encoded.subrange(2 * k, 2 * k + 2);
    let text = digits.subrange(2 * k, 2 * k + 2);
    lemma_ascii_bytes(pair, text);
    assert(pair_value(pair) is Ok);
    assert(hex_byte(text) == Some(mac_bytes(mac)->Ok_0[k]));
    reveal_with_fuel(hex_digits, 3);
    if text[0] == '+' {
        assert(text.drop_first() == seq![text[1]]);
        assert(seq![text[1]].drop_last() == Seq::<char>::empty());
    } else {
        assert(text.drop_last() == seq![text[0]]);
        assert(seq![text[0]].drop_last() == Seq::<char>::empty());
    }
}

/// The characters of a valid MAC address besides its separators are ASCII, and its encoding holds
/// them one by one.
proof fn lemma_encoded_digits(mac: Seq<char>)
    requires
        mac_bytes(mac) is Ok,
    ensures
        without_separators(mac).len() == 12,
        encode_utf8(without_separators(mac)).len() == 12,
        is_ascii_chars(without_separators(mac)),
        forall|i: int|
            0 <= i < 12 ==> #[trigger] encode_utf8(without_separators(mac))[i]
                == without_separators(mac)[i] as u8,
{
    let digits = without_separators(mac);
    let encoded = encode_utf8(digits);
    lemma_pair_values(encoded, 6);
    assert forall|i: int| 0 <= i < 12 implies #[trigger] encoded[i] <= 127 by {
        let k = i / 2;
        let pair = encoded.subrange(2 * k, 2 * k + 2);
        lemma_pair_is_ascii(pair);
        assert(encoded[i] == pair[i % 2]);
    }
    let text = Seq::new(12, |i: int| encoded[i] as char);
    lemma_ascii_bytes(encoded, text);
    encode_utf8_decode_utf8(digits);
    assert(digits == text);
}

/// The value at a position is that of the pair there.
proof fn lemma_pair_value_at(encoded: Seq<u8>, n: nat, k: int)
    requires
        pair_values(encoded, n) is Ok,
        0 <= k < n,
    ensures
        pair_values(encoded, n)->Ok_0.len() == n,
        pair_value(encoded.subrange(2 * k, 2 * k + 2)) == Ok::<u8, Seq<char>>(
            pair_values(encoded, n)->Ok_0[k],
        ),
    decreases n,
{
    lemma_pair_values(encoded, n);
    lemma_pair_values(encoded, (n - 1) as nat);
    if k < n - 1 {
        lemma_pair_value_at(encoded, (n - 1) as nat, k);
    } else {
        assert(encoded.subrange(2 * n - 2, 2 * n as int) == encoded.subrange(2 * k, 2 * k + 2));
    }
}

/// Whether a packet is the magic packet of a MAC address: 102 bytes, of which the first six are
/// 255 and each six of the others are the bytes that the address spells.
pub open spec fn wakes(packet: Seq<u8>, mac: Seq<char>) -> bool {
    &&& packet.len() == 102
    &&& mac_bytes(mac) is Ok
    &&& mac_bytes(mac)->Ok_0.len() == 6
    &&& forall|i: int| 0 <= i < 6 ==> #[trigger] packet[i] == 255
    &&& forall|i: int| 6 <= i < 102 ==> #[trigger] packet[i] == mac_bytes(mac)->Ok_0[i % 6]
}

/// The packet for an address is its magic packet.
pub proof fn law_the_packet_wakes_its_machine(mac: Seq<char>)
    requires
        magic_packet_for(mac) is Ok,
    ensures
        wakes(magic_packet_for(mac)->Ok_0, mac),
{
    let encoded = encode_utf8(without_separators(mac));
    lemma_pair_values(encoded, 6);
}

/// Every datagram of a request whose MAC addresses are all valid carries the magic packet of its
/// MAC address, goes to its broadcast address at the port of the request, and goes out as often as
/// the request says, at least once.
pub proof fn law_datagrams_carry_out_the_request(payload: WakeUpModel, b: int, m: int)
    requires
        forall|i: int|
            0 <= i < payload.mac_list.len() ==> magic_packet_for(#[trigger] payload.mac_list[i]) is Ok,
        0 <= b < payload.broadcast_ips.len(),
        0 <= m < payload.mac_list.len(),
    ensures
        ({
            let datagram = payload.datagrams()[b * payload.mac_list.len() + m];
            &&& payload.datagrams().len() == payload.broadcast_ips.len() * payload.mac_list.len()
            &&& wakes(datagram.packet, payload.mac_list[m])
            &&& datagram.target == payload.broadcast_ips[b] + seq![':'] + decimal(
                payload.port as int,
            )
            &&& datagram.copies >= 1
            &&& payload.repeat >= 1 ==> datagram.copies == payload.repeat
            &&& payload.repeat == 0 ==> datagram.copies == 1
        }),
{
    law_every_packet_goes_everywhere(payload, b, m);
    assert(magic_packet_for(payload.mac_list[m]) is Ok);
    law_the_packet_wakes_its_machine(payload.mac_list[m]);
    reveal_strlit(":");
    assert(":"@ == seq![':']);
}

/// Where a request names an invalid MAC address, the valid ones in front of it are still woken
/// through the first broadcast address, and nothing more is sent.
pub proof fn law_what_precedes_an_invalid_address_is_sent(payload: WakeUpModel, bad: int, m: int)
    requires
        payload.broadcast_ips.len() > 0,
        0 <= bad < payload.mac_list.len(),
        magic_packet_for(payload.mac_list[bad]) is Err,
        forall|i: int| 0 <= i < bad ==> magic_packet_for(#[trigger] payload.mac_list[i]) is Ok,
    ensures
        payload.datagrams().len() == bad,
        payload.outcome() == Err::<(), Seq<char>>(magic_packet_for(payload.mac_list[bad])->Err_0),
        0 <= m < bad ==> {
            let datagram = payload.datagrams()[m];
            &&& wakes(datagram.packet, payload.mac_list[m])
            &&& datagram.target == payload.broadcast_ips[0] + seq![':'] + decimal(
                payload.port as int,
            )
            &&& datagram.copies == if payload.repeat == 0 {
                1u8
            } else {
                payload.repeat
            }
        },
{
    lemma_leading_valid(payload.mac_list, bad);
    reveal_strlit(":");
    assert(":"@ == seq![':']);
    if 0 <= m < bad {
        assert(magic_packet_for(payload.mac_list[m]) is Ok);
        law_the_packet_wakes_its_machine(payload.mac_list[m]);
    }
}

/// A MAC address with the wrong number of digits is refused by name.
pub proof fn law_a_wrong_number_of_digits_is_refused(mac: Seq<char>)
    requires
        encode_utf8(without_separators(mac)).len() != 12,
    ensures
        magic_packet_for(mac) == Err::<Seq<u8>, Seq<char>>("Invalid MAC address: "@ + mac),
{
}

/// Twelve ASCII characters besides the separators are a valid address if each two of them spell a
/// byte.
pub proof fn law_twelve_digits_are_an_address(mac: Seq<char>)
    requires
        without_separators(mac).len() == 12,
        forall|i: int|
            0 <= i < 12 ==> hex_digit(#[trigger] without_separators(mac)[i]) is Some,
    ensures
        magic_packet_for(mac) is Ok,
{
    let digits = without_separators(mac);
    let encoded = encode_utf8(digits);
    assert(is_ascii_chars(digits)) by {
        assert forall|i: int| 0 <= i < digits.len() implies '\0' <= #[trigger] digits[i] <= '\u{7f}' by {
            assert(hex_digit(digits[i]) is Some);
        }
    }
    is_ascii_chars_encode_utf8(digits);
    lemma_digit_pairs(encoded, digits, 6);
}

proof fn lemma_digit_pairs(encoded: Seq<u8>, digits: Seq<char>, n: nat)
    requires
        digits.len() == 12,
        encoded.len() == 12,
        n <= 6,
        is_ascii_chars(digits),
        forall|i: int| 0 <= i < 12 ==> #[trigger] encoded[i] == digits[i] as u8,
        forall|i: int| 0 <= i < 12 ==> hex_digit(#[trigger] digits[i]) is Some,
    ensures
        pair_values(encoded, n) is Ok,
    decreases n,
{
    if n > 0 {
        lemma_digit_pairs(encoded, digits, (n - 1) as nat);
        let pair = encoded.subrange(2 * n - 2, 2 * n as int);
        let text = digits.subrange(2 * n - 2, 2 * n as int);
        lemma_ascii_bytes(pair, text);
        assert(text[0] == digits[2 * n - 2] && text[1] == digits[2 * n - 1]);
        assert(hex_digit(text[0]) is Some && hex_digit(text[1]) is Some);
        reveal_with_fuel(hex_digits, 3);
        assert(text.drop_last() == seq![text[0]]);
        assert(seq![text[0]].drop_last() == Seq::<char>::empty());
        assert(text.last() == text[1]);
    }
}

/// The model of a request holds what each field holds, under its name.
pub proof fn law_the_model_of_a_request_is_faithful(payload: ReplyWakeUp, i: int)
    ensures
        payload@.port == payload.port,
        payload@.repeat == payload.repeat,
        payload@.mac_list.len() == payload.mac_list@.len(),
        payload@.broadcast_ips.len() == payload.broadcast_ips@.len(),
        0 <= i < payload.mac_list@.len() ==> payload@.mac_list[i] == payload.mac_list@[i]@,
        0 <= i < payload.broadcast_ips@.len() ==> payload@.broadcast_ips[i]
            == payload.broadcast_ips@[i]@,
{
}

/// The model of a datagram holds what each field holds, under its name.
pub proof fn law_the_model_of_a_datagram_is_faithful(datagram: Datagram)
    ensures
        datagram@.target == datagram.target@,
        datagram@.packet == datagram.packet@,
        datagram@.copies == datagram.copies,
{
}

/// A list of datagrams or texts, and a result, are modelled one by one, in order, errors with their
/// own words.
pub proof fn law_the_models_of_lists_and_results_are_faithful(
    datagrams: Seq<Datagram>,
    list: Seq<String>,
    i: int,
    outcome: Result<(), String>,
    bytes: Result<Vec<u8>, String>,
)
    ensures
        datagram_models(datagrams).len() == datagrams.len(),
        0 <= i < datagrams.len() ==> datagram_models(datagrams)[i] == datagrams[i]@,
        texts(list).len() == list.len(),
        0 <= i < list.len() ==> texts(list)[i] == list[i]@,
        outcome is Ok <==> outcome_model(outcome) is Ok,
        outcome matches Err(error) ==> outcome_model(outcome) == Err::<(), Seq<char>>(error@),
        bytes matches Ok(data) ==> bytes_result(bytes) == Ok::<Seq<u8>, Seq<char>>(data@),
        bytes matches Err(error) ==> bytes_result(bytes) == Err::<Seq<u8>, Seq<char>>(error@),
{
}

} // verus!
