//! The state of the desktop application that no node keeps for it: the
//! outlets that the user has shared.
//!
//! A row of the table of outlets holds its two addresses as text. Whether
//! the texts are addresses is found out where they are read; the library is
//! told the outcome and decides what becomes of the row.

use vstd::prelude::*;
use crate::identity::clone_bytes;
use crate::text::clone_option_text;

verus! {

/// The address of a socket: the bytes of an address of the internet, four or
/// sixteen of them, and a port.
#[derive(Debug, PartialEq, Eq)]
pub struct SocketAddress {
    pub ip: Vec<u8>,
    pub port: u16,
}

/// The address of a worker: the kind of transport that reaches it and its
/// name on that transport.
#[derive(Debug, PartialEq, Eq)]
pub struct WorkerAddress {
    pub transport_type: u8,
    pub value: String,
}

/// A TCP outlet: the address it forwards to, the worker that serves it, and
/// what the user calls it.
#[derive(Debug, PartialEq, Eq)]
pub struct OutletStatus {
    pub socket_addr: SocketAddress,
    pub worker_addr: WorkerAddress,
    pub alias: String,
    /// An optional free-form description.
    pub payload: Option<String>,
}

/// Why a row is not an outlet.
#[derive(Debug, PartialEq, Eq)]
pub enum ModelStateError {
    /// This text is not the address of a socket.
    InvalidSocketAddress(String),
    /// This text is not the address of a worker.
    InvalidWorkerAddress(String),
}

/// The state of the application.
#[derive(Debug, PartialEq, Eq)]
pub struct ModelState {
    pub tcp_outlets: Vec<OutletStatus>,
}

impl ModelState {
    pub fn new(tcp_outlets: Vec<OutletStatus>) -> (state: Self)
        ensures
            state.tcp_outlets == tcp_outlets,
    {
        ModelState { tcp_outlets }
    }
}

impl Default for ModelState {
    fn default() -> (state: Self)
        ensures
            state.tcp_outlets@.len() == 0,
    {
        ModelState::new(Vec::new())
    }
}

/// A row of the table of outlets.
#[derive(Debug, PartialEq, Eq)]
pub struct TcpOutletRow {
    pub socket_addr: String,
    pub worker_addr: String,
    pub alias: String,
    pub payload: Option<String>,
}

/// A row with what reading its two addresses gave: the address of the
/// socket and the address of the worker, each `None` where the text is not
/// such an address.
#[derive(Debug, PartialEq, Eq)]
pub struct ParsedRow {
    pub row: TcpOutletRow,
    pub socket_addr: Option<SocketAddress>,
    pub worker_addr: Option<WorkerAddress>,
}

/// Whether `status` is the outlet of `row` with the two addresses that
/// were read: it has those addresses, and the alias and the payload of the
/// row.
pub open spec fn spec_is_outlet_of(
    status: OutletStatus,
    row: TcpOutletRow,
    socket_addr: Option<SocketAddress>,
    worker_addr: Option<WorkerAddress>,
) -> bool {
    &&& socket_addr matches Some(socket) && status.socket_addr.ip@ == socket.ip@
        && status.socket_addr.port == socket.port
    &&& worker_addr matches Some(worker) && status.worker_addr.transport_type
        == worker.transport_type && status.worker_addr.value@ == worker.value@
    &&& status.alias@ == row.alias@
    &&& match (status.payload, row.payload) {
        (Some(a), Some(b)) => a@ == b@,
        (None, None) => true,
        _ => false,
    }
}

/// Whether `error` is what is wrong with `row`: the socket's address where
/// that was not read, else the worker's, each with the text of the row.
pub open spec fn spec_is_error_of(
    error: ModelStateError,
    row: TcpOutletRow,
    socket_addr: Option<SocketAddress>,
    worker_addr: Option<WorkerAddress>,
) -> bool {
    match error {
        ModelStateError::InvalidSocketAddress(text) => socket_addr is None && text@
            == row.socket_addr@,
        ModelStateError::InvalidWorkerAddress(text) => socket_addr is Some && worker_addr
            is None && text@ == row.worker_addr@,
    }
}

/// Whether both addresses of a row were read.
pub open spec fn spec_parsed(parsed: ParsedRow) -> bool {
    parsed.socket_addr is Some && parsed.worker_addr is Some
}

/// The position of the first row, from `from` on, of which an address was
/// not read.
pub open spec fn spec_first_unparsed(rows: Seq<ParsedRow>, from: int) -> Option<int>
    decreases rows.len() - from,
{
    if from < 0 || from >= rows.len() {
        None
    } else if !spec_parsed(rows[from]) {
        Some(from)
    } else {
        spec_first_unparsed(rows, from + 1)
    }
}

impl TcpOutletRow {
    pub fn alias(&self) -> (alias: String)
        ensures
            alias@ == self.alias@,
    {
        self.alias.clone()
    }

    pub fn payload(&self) -> (payload: Option<String>)
        ensures
            match (payload, self.payload) {
                (Some(a), Some(b)) => a@ == b@,
                (None, None) => true,
                _ => false,
            },
    {
        clone_option_text(&self.payload)
    }

    /// The outlet that this row records, given what reading its two
    /// addresses gave. An error where the address of the socket was not
    /// read, else where the address of the worker was not.
    pub fn tcp_outlet_status(
        &self,
        socket_addr: &Option<SocketAddress>,
        worker_addr: &Option<WorkerAddress>,
    ) -> (r: Result<OutletStatus, ModelStateError>)
        ensures
            r is Ok <==> socket_addr is Some && worker_addr is Some,
            match r {
                Ok(status) => spec_is_outlet_of(status, *self, *socket_addr, *worker_addr),
                Err(error) => spec_is_error_of(error, *self, *socket_addr, *worker_addr),
            },
    {
        let socket = match socket_addr {
            None => {
                return Err(ModelStateError::InvalidSocketAddress(self.socket_addr.clone()));
            },
            Some(socket) => SocketAddress { ip: clone_bytes(&socket.ip), port: socket.port },
        };
        let worker = match worker_addr {
            None => {
                return Err(ModelStateError::InvalidWorkerAddress(self.worker_addr.clone()));
            },
            Some(worker) => WorkerAddress {
                transport_type: worker.transport_type,
                value: worker.value.clone(),
            },
        };
        Ok(
            OutletStatus {
                socket_addr: socket,
                worker_addr: worker,
                alias: self.alias(),
                payload: self.payload(),
            },
        )
    }
}

/// The outlets that a list of rows records, in order. One row of which an
/// address was not read fails them all, with the error of the first such
/// row.
pub fn load(rows: &Vec<ParsedRow>) -> (r: Result<ModelState, ModelStateError>)
    ensures
        match r {
            Ok(state) => spec_first_unparsed(rows@, 0) is None && state.tcp_outlets@.len()
                == rows@.len() && forall|i: int|
                0 <= i < rows@.len() ==> spec_is_outlet_of(
                    #[trigger] state.tcp_outlets@[i],
                    rows@[i].row,
                    rows@[i].socket_addr,
                    rows@[i].worker_addr,
                ),
            Err(error) => spec_first_unparsed(rows@, 0) matches Some(i) && spec_is_error_of(
                error,
                rows@[i].row,
                rows@[i].socket_addr,
                rows@[i].worker_addr,
            ),
        },
{
    let mut outlets: Vec<OutletStatus> = Vec::new();
    let mut i: usize = 0;
    while i < rows.len()
        invariant
            0 <= i <= rows@.len(),
            outlets@.len() == i,
            spec_first_unparsed(rows@, 0) == spec_first_unparsed(rows@, i as int),
            forall|j: int|
                0 <= j < i ==> spec_is_outlet_of(
                    #[trigger] outlets@[j],
                    rows@[j].row,
                    rows@[j].socket_addr,
                    rows@[j].worker_addr,
                ),
        decreases rows@.len() - i,
    {
        match rows[i].row.tcp_outlet_status(&rows[i].socket_addr, &rows[i].worker_addr) {
            Err(error) => {
                return Err(error);
            },
            Ok(status) => {
                outlets.push(status);
            },
        }
        i += 1;
    }
    Ok(ModelState::new(outlets))
}

/// The position of the first `#` in `text` from `from` on.
pub open spec fn spec_first_separator(text: Seq<char>, from: int) -> Option<int>
    decreases text.len() - from,
{
    if from < 0 || from >= text.len() {
        None
    } else if text[from] == '#' {
        Some(from)
    } else {
        spec_first_separator(text, from + 1)
    }
}

/// What a decimal digit stands for.
pub open spec fn spec_digit_value(digit: char) -> Option<nat> {
    if digit == '0' {
        Some(0)
    } else if digit == '1' {
        Some(1)
    } else if digit == '2' {
        Some(2)
    } else if digit == '3' {
        Some(3)
    } else if digit == '4' {
        Some(4)
    } else if digit == '5' {
        Some(5)
    } else if digit == '6' {
        Some(6)
    } else if digit == '7' {
        Some(7)
    } else if digit == '8' {
        Some(8)
    } else if digit == '9' {
        Some(9)
    } else {
        None
    }
}

/// The number that the first `count` characters of `digits` write in
/// decimal; `None` where one of them is no digit.
pub open spec fn spec_number(digits: Seq<char>, count: nat) -> Option<nat>
    decreases count,
{
    if count == 0 {
        Some(0)
    } else {
        match (spec_number(digits, (count - 1) as nat), spec_digit_value(digits[count - 1])) {
            (Some(before), Some(digit)) => Some(before * 10 + digit),
            _ => None,
        }
    }
}

/// The kind of transport that `digits` names: a number in decimal, of at
/// least one digit, that fits in a byte.
pub open spec fn spec_transport_type(digits: Seq<char>) -> Option<u8> {
    if digits.len() == 0 {
        None
    } else {
        match spec_number(digits, digits.len()) {
            Some(number) => if number <= 255 {
                Some(number as u8)
            } else {
                None
            },
            None => None,
        }
    }
}

/// The address of a worker that `text` writes. A text without `#` is the
/// name of a worker on this node, which is transport 0. A text with one
/// `#` is the number of the transport before it and the name after it. Any
/// other text is no address.
pub open spec fn spec_worker_address(text: Seq<char>) -> Option<(u8, Seq<char>)> {
    match spec_first_separator(text, 0) {
        None => Some((0u8, text)),
        Some(at) => if spec_first_separator(text, at + 1) is Some {
            None
        } else {
            match spec_transport_type(text.subrange(0, at)) {
                None => None,
                Some(transport_type) => Some(
                    (transport_type, text.subrange(at + 1, text.len() as int)),
                ),
            }
        },
    }
}

/// A number that has outgrown a byte does not come back into it, whatever
/// digits follow.
pub proof fn lemma_number_grows(digits: Seq<char>, count: nat, longer: nat)
    requires
        count <= longer,
        spec_number(digits, count) matches Some(number) && number > 255,
    ensures
        spec_number(digits, longer) matches Some(number) ==> number > 255,
    decreases longer,
{
    if count < longer {
        lemma_number_grows(digits, count, (longer - 1) as nat);
    }
}

fn first_separator(text: &str, from: usize) -> (position: Option<usize>)
    requires
        from <= text@.len(),
    ensures
        match position {
            Some(at) => spec_first_separator(text@, from as int) == Some(at as int) && from <= at
                < text@.len(),
            None => spec_first_separator(text@, from as int) is None,
        },
{
    let len = text.unicode_len();
    let mut i: usize = from;
    while i < len
        invariant
            from <= i <= len,
            len == text@.len(),
            spec_first_separator(text@, from as int) == spec_first_separator(text@, i as int),
        decreases len - i,
    {
        if text.get_char(i) == '#' {
            return Some(i);
        }
        i += 1;
    }
    None
}

fn digit_value(digit: char) -> (value: Option<u32>)
    ensures
        match value {
            Some(v) => spec_digit_value(digit) == Some(v as nat) && v <= 9,
            None => spec_digit_value(digit) is None,
        },
{
    if digit == '0' {
        Some(0)
    } else if digit == '1' {
        Some(1)
    } else if digit == '2' {
        Some(2)
    } else if digit == '3' {
        Some(3)
    } else if digit == '4' {
        Some(4)
    } else if digit == '5' {
        Some(5)
    } else if digit == '6' {
        Some(6)
    } else if digit == '7' {
        Some(7)
    } else if digit == '8' {
        Some(8)
    } else if digit == '9' {
        Some(9)
    } else {
        None
    }
}

fn transport_type(digits: &str) -> (r: Option<u8>)
    ensures
        r == spec_transport_type(digits@),
{
    let len = digits.unicode_len();
    if len == 0 {
        return None;
    }
    let mut number: u32 = 0;
    let mut i: usize = 0;
    while i < len
        invariant
            0 <= i <= len,
            len == digits@.len(),
            number <= 255,
            spec_number(digits@, i as nat) == Some(number as nat),
        decreases len - i,
    {
        match digit_value(digits.get_char(i)) {
            None => {
                proof {
                    lemma_number_stays_refused(digits@, (i + 1) as nat, len as nat);
                }
                return None;
            },
            Some(digit) => {
                number = number * 10 + digit;
                if number > 255 {
                    proof {
                        lemma_number_grows(digits@, (i + 1) as nat, len as nat);
                    }
                    return None;
                }
            },
        }
        i += 1;
    }
    Some(number as u8)
}

/// Once a character is no digit, the characters after it change nothing.
pub proof fn lemma_number_stays_refused(digits: Seq<char>, count: nat, longer: nat)
    requires
        count <= longer,
        spec_number(digits, count) is None,
    ensures
        spec_number(digits, longer) is None,
    decreases longer,
{
    if count < longer {
        lemma_number_stays_refused(digits, count, (longer - 1) as nat);
    }
}

/// Reads the address of a worker.
pub fn parse_worker_address(text: &str) -> (r: Option<WorkerAddress>)
    ensures
        match r {
            Some(address) => spec_worker_address(text@) == Some(
                (address.transport_type, address.value@),
            ),
            None => spec_worker_address(text@) is None,
        },
{
    let at = match first_separator(text, 0) {
        None => {
            return Some(WorkerAddress { transport_type: 0, value: String::from_str(text) });
        },
        Some(at) => at,
    };
    let len = text.unicode_len();
    if first_separator(text, at + 1).is_some() {
        return None;
    }
    match transport_type(text.substring_char(0, at)) {
        None => None,
        Some(transport_type) => Some(
            WorkerAddress {
                transport_type,
                value: String::from_str(text.substring_char(at + 1, len)),
            },
        ),
    }
}

impl ParsedRow {
    /// A row with what reading its addresses gave: the address of the
    /// socket as it is handed in, the address of the worker as the row
    /// writes it.
    pub fn read(row: TcpOutletRow, socket_addr: Option<SocketAddress>) -> (parsed: Self)
        ensures
            parsed.row == row,
            parsed.socket_addr == socket_addr,
            match parsed.worker_addr {
                Some(address) => spec_worker_address(row.worker_addr@) == Some(
                    (address.transport_type, address.value@),
                ),
                None => spec_worker_address(row.worker_addr@) is None,
            },
    {
        let worker_addr = parse_worker_address(row.worker_addr.as_str());
        ParsedRow { row, socket_addr, worker_addr }
    }
}

} // verus!
