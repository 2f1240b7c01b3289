//! Reading the fields of the common replies. Each field is found by a rule:
//! a prefix that its line begins with, and for some a condition on the rest
//! of the line. Where several lines of a reply meet a rule, the last one
//! counts.

use crate::models::{ConfigInfo, ConnectionStatus, DeviceInfo};
use crate::text::{
    chars_of, has_prefix, lines, parse_decimal_i32, parse_i32, split, split_chars, split_lines,
    starts_with, string_of, strip_repeated_prefix, subvec, trim, trimmed, views,
    without_repeated_prefix,
};
use vstd::prelude::*;

verus! {

/// The command that asks for the device's identity.
pub const DEVICE_INFO_COMMAND: &'static str = "ATI";

/// The command that asks for the state of the data connection.
pub const CONNECTION_STATUS_COMMAND: &'static str = "AT^NDISSTATQRY=8";

/// The command that asks for the PCIe LAN mode.
pub const LAN_MODE_COMMAND: &'static str = "AT^TDPCIELANCFG?";

/// The command that asks for the PCIe power management setting.
pub const POWER_MANAGEMENT_COMMAND: &'static str = "AT^TDPMCFG?";

/// The command that asks for the automatic dialling setting.
pub const AUTO_DIAL_COMMAND: &'static str = "AT^SETAUTODIAL?";

/// The rules by which a line of a reply is recognised.
#[derive(Debug, Clone, Copy, PartialEq, Eq)]
pub enum ReplyLine {
    Manufacturer,
    Model,
    Revision,
    Imei,
    Capabilities,
    /// A connection status line with its eight fields or more.
    ConnectionStatus,
    /// A LAN mode line whose value is a number.
    LanMode,
    PowerManagement,
    /// An automatic dialling line with its two fields or more.
    AutoDial,
    /// An automatic dialling line whose second field is a number.
    DialMode,
}

impl ReplyLine {
    /// The prefix that a line of this kind begins with.
    pub open spec fn spec_prefix(self) -> Seq<char> {
        match self {
            ReplyLine::Manufacturer => "Manufacturer: "@,
            ReplyLine::Model => "Model: "@,
            ReplyLine::Revision => "Revision: "@,
            ReplyLine::Imei => "IMEI: "@,
            ReplyLine::Capabilities => "+GCAP: "@,
            ReplyLine::ConnectionStatus => "^NDISSTATQRY:"@,
            ReplyLine::LanMode => "^TDPCIELANCFG:"@,
            ReplyLine::PowerManagement => "^TDPMCFG:"@,
            ReplyLine::AutoDial => "^SETAUTODAIL:"@,
            ReplyLine::DialMode => "^SETAUTODAIL:"@,
        }
    }

    /// What follows the prefix, the prefix taken off as often as the line
    /// repeats it.
    pub open spec fn payload(self, line: Seq<char>) -> Seq<char> {
        strip_repeated_prefix(line, self.spec_prefix())
    }

    /// Whether `line` is a line of this kind.
    pub open spec fn accepts(self, line: Seq<char>) -> bool {
        &&& starts_with(line, self.spec_prefix())
        &&& match self {
            ReplyLine::ConnectionStatus => split(line, ',').len() >= 8,
            ReplyLine::LanMode => parse_i32(trim(self.payload(line))) is Some,
            ReplyLine::AutoDial => split(self.payload(line), ',').len() >= 2,
            ReplyLine::DialMode => {
                let parts = split(self.payload(line), ',');
                parts.len() >= 2 && parse_i32(trim(parts[1])) is Some
            },
            _ => true,
        }
    }

    /// The last line of `lines` that is of this kind.
    pub open spec fn last_in(self, lines: Seq<Seq<char>>) -> Option<Seq<char>>
        decreases lines.len(),
    {
        if lines.len() == 0 {
            None
        } else if self.accepts(lines.last()) {
            Some(lines.last())
        } else {
            self.last_in(lines.drop_last())
        }
    }

    /// The prefix that a line of this kind begins with.
    pub fn prefix(&self) -> (p: &'static str)
        ensures
            p@ == self.spec_prefix(),
    {
        match self {
            ReplyLine::Manufacturer => "Manufacturer: ",
            ReplyLine::Model => "Model: ",
            ReplyLine::Revision => "Revision: ",
            ReplyLine::Imei => "IMEI: ",
            ReplyLine::Capabilities => "+GCAP: ",
            ReplyLine::ConnectionStatus => "^NDISSTATQRY:",
            ReplyLine::LanMode => "^TDPCIELANCFG:",
            ReplyLine::PowerManagement => "^TDPMCFG:",
            ReplyLine::AutoDial => "^SETAUTODAIL:",
            ReplyLine::DialMode => "^SETAUTODAIL:",
        }
    }

    /// Whether `line` is a line of this kind.
    pub fn is_accepted(&self, line: &[char]) -> (r: bool)
        ensures
            r == self.accepts(line@),
    {
        let prefix = chars_of(self.prefix());
        if !has_prefix(line, prefix.as_slice()) {
            return false;
        }
        match self {
            ReplyLine::ConnectionStatus => split_chars(line, ',').len() >= 8,
            ReplyLine::LanMode => {
                let payload = without_repeated_prefix(line, prefix.as_slice());
                let value = trimmed(payload.as_slice());
                parse_decimal_i32(value.as_slice()).is_some()
            },
            ReplyLine::AutoDial => {
                let payload = without_repeated_prefix(line, prefix.as_slice());
                split_chars(payload.as_slice(), ',').len() >= 2
            },
            ReplyLine::DialMode => {
                let payload = without_repeated_prefix(line, prefix.as_slice());
                let parts = split_chars(payload.as_slice(), ',');
                if parts.len() >= 2 {
                    assert(views(parts@)[1] == parts@[1]@);
                    let value = trimmed(parts[1].as_slice());
                    parse_decimal_i32(value.as_slice()).is_some()
                } else {
                    false
                }
            },
            _ => true,
        }
    }

    /// The index of the last line of `lines` that is of this kind.
    pub fn find_last(&self, lines: &Vec<Vec<char>>) -> (r: Option<usize>)
        ensures
            r is Some == self.last_in(views(lines@)) is Some,
            r matches Some(i) ==> i < lines.len() && self.accepts(lines@[i as int]@)
                && self.last_in(views(lines@)) == Some(lines@[i as int]@),
    {
        let mut i: usize = lines.len();
        assert(views(lines@).take(i as int) == views(lines@));
        while i > 0
            invariant
                i <= lines.len(),
                self.last_in(views(lines@)) == self.last_in(views(lines@).take(i as int)),
            decreases i,
        {
            let ghost upto = views(lines@).take(i as int);
            assert(upto.last() == lines@[i - 1]@);
            assert(upto.drop_last() == views(lines@).take(i - 1));
            if self.is_accepted(lines[i - 1].as_slice()) {
                return Some(i - 1);
            }
            i = i - 1;
        }
        None
    }
}

/// What follows the prefix on the last line of `reply` that `rule` accepts;
/// empty where it accepts none.
pub open spec fn field_text(rule: ReplyLine, reply: Seq<char>) -> Seq<char> {
    match rule.last_in(lines(reply)) {
        Some(line) => line.subrange(rule.spec_prefix().len() as int, line.len() as int),
        None => Seq::empty(),
    }
}

/// Field `index` of the last connection status line of `reply`, without the
/// white space around it; empty where the reply has no such line. The first
/// field is what follows the prefix.
pub open spec fn status_field(reply: Seq<char>, index: int) -> Seq<char> {
    match ReplyLine::ConnectionStatus.last_in(lines(reply)) {
        Some(line) => {
            let part = split(line, ',')[index];
            if index == 0 {
                trim(ReplyLine::ConnectionStatus.payload(part))
            } else {
                trim(part)
            }
        },
        None => Seq::empty(),
    }
}

/// The LAN mode that `reply` gives: the number on its last LAN mode line, 1
/// where it has none.
pub open spec fn lan_mode(reply: Seq<char>) -> i32 {
    match ReplyLine::LanMode.last_in(lines(reply)) {
        Some(line) => parse_i32(trim(ReplyLine::LanMode.payload(line))).unwrap(),
        None => 1,
    }
}

/// Whether the first field on the last line of `reply` that `rule` accepts is
/// `1`; `false` where it accepts none.
pub open spec fn switch_is_on(rule: ReplyLine, reply: Seq<char>) -> bool {
    match rule.last_in(lines(reply)) {
        Some(line) => trim(split(rule.payload(line), ',')[0]) == seq!['1'],
        None => false,
    }
}

/// The dial mode that `reply` gives: the number in the second field of its
/// last automatic dialling line that has one there, 0 where none has.
pub open spec fn dial_mode(reply: Seq<char>) -> i32 {
    match ReplyLine::DialMode.last_in(lines(reply)) {
        Some(line) => parse_i32(trim(split(ReplyLine::DialMode.payload(line), ',')[1])).unwrap(),
        None => 0,
    }
}

/// Reads the replies to the queries about the device.
pub struct QueryInfo {}

impl QueryInfo {
    pub fn new() -> (r: QueryInfo)
        ensures
            r == (QueryInfo {  }),
    {
        QueryInfo {  }
    }

    /// What follows the prefix on the last line of `lines` that `rule`
    /// accepts.
    fn field(rule: ReplyLine, lines: &Vec<Vec<char>>) -> (r: String)
        ensures
            r@ == match rule.last_in(views(lines@)) {
                Some(line) => line.subrange(rule.spec_prefix().len() as int, line.len() as int),
                None => Seq::empty(),
            },
    {
        match rule.find_last(lines) {
            Some(i) => {
                let line = lines[i].as_slice();
                let skip: usize = chars_of(rule.prefix()).len();
                let rest = subvec(line, skip, line.len());
                string_of(rest.as_slice())
            },
            None => String::new(),
        }
    }

    /// Whether the first field on the last line of `lines` that `rule`
    /// accepts is `1`.
    fn switch(rule: ReplyLine, lines: &Vec<Vec<char>>) -> (r: bool)
        ensures
            r == match rule.last_in(views(lines@)) {
                Some(line) => trim(split(rule.payload(line), ',')[0]) == seq!['1'],
                None => false,
            },
    {
        match rule.find_last(lines) {
            Some(i) => {
                let prefix = chars_of(rule.prefix());
                let payload = without_repeated_prefix(lines[i].as_slice(), prefix.as_slice());
                let parts = split_chars(payload.as_slice(), ',');
                assert(views(parts@).len() >= 1) by {
                    crate::text::lemma_split_is_not_empty(payload@, ',');
                }
                assert(views(parts@)[0] == parts@[0]@);
                let value = trimmed(parts[0].as_slice());
                let on: bool = value.len() == 1 && value[0] == '1';
                proof {
                    if on {
                        assert(value@ =~= seq!['1']);
                    } else {
                        assert(seq!['1'].len() == 1 && seq!['1'][0] == '1');
                    }
                }
                on
            },
            None => false,
        }
    }

    /// The identity of the device, from the reply to
    /// [`DEVICE_INFO_COMMAND`].
    pub fn get_device_info(&self, response: &str) -> (info: DeviceInfo)
        ensures
            info.manufacturer@ == field_text(ReplyLine::Manufacturer, response@),
            info.model@ == field_text(ReplyLine::Model, response@),
            info.version@ == field_text(ReplyLine::Revision, response@),
            info.imei@ == field_text(ReplyLine::Imei, response@),
            info.capabilities@ == field_text(ReplyLine::Capabilities, response@),
    {
        let text = chars_of(response);
        let lines = split_lines(text.as_slice());
        DeviceInfo {
            manufacturer: Self::field(ReplyLine::Manufacturer, &lines),
            model: Self::field(ReplyLine::Model, &lines),
            version: Self::field(ReplyLine::Revision, &lines),
            imei: Self::field(ReplyLine::Imei, &lines),
            capabilities: Self::field(ReplyLine::Capabilities, &lines),
        }
    }

    /// The state of the data connection, from the reply to
    /// [`CONNECTION_STATUS_COMMAND`].
    pub fn get_connstat(&mut self, response: &str) -> (status: ConnectionStatus)
        ensures
            *final(self) == *old(self),
            status.ipv4_stat@ == status_field(response@, 0),
            status.ipv4_err@ == status_field(response@, 1),
            status.ipv6_stat@ == status_field(response@, 4),
            status.ipv6_err@ == status_field(response@, 5),
    {
        let text = chars_of(response);
        let lines = split_lines(text.as_slice());
        match ReplyLine::ConnectionStatus.find_last(&lines) {
            Some(i) => {
                let parts = split_chars(lines[i].as_slice(), ',');
                assert(views(parts@)[0] == parts@[0]@);
                assert(views(parts@)[1] == parts@[1]@);
                assert(views(parts@)[4] == parts@[4]@);
                assert(views(parts@)[5] == parts@[5]@);
                let prefix = chars_of(ReplyLine::ConnectionStatus.prefix());
                let first = without_repeated_prefix(parts[0].as_slice(), prefix.as_slice());
                ConnectionStatus {
                    ipv4_stat: string_of(trimmed(first.as_slice()).as_slice()),
                    ipv4_err: string_of(trimmed(parts[1].as_slice()).as_slice()),
                    ipv6_stat: string_of(trimmed(parts[4].as_slice()).as_slice()),
                    ipv6_err: string_of(trimmed(parts[5].as_slice()).as_slice()),
                }
            },
            None => ConnectionStatus {
                ipv4_stat: String::new(),
                ipv4_err: String::new(),
                ipv6_stat: String::new(),
                ipv6_err: String::new(),
            },
        }
    }

    /// The configuration of the device, from the replies to
    /// [`LAN_MODE_COMMAND`], [`POWER_MANAGEMENT_COMMAND`] and
    /// [`AUTO_DIAL_COMMAND`].
    pub fn get_config_info(&self, pcie_cfg: &str, pm_cfg: &str, autodial_cfg: &str) -> (config:
        ConfigInfo)
        ensures
            config.pcie_lan_mode == lan_mode(pcie_cfg@),
            config.pcie_pm_enabled == switch_is_on(ReplyLine::PowerManagement, pm_cfg@),
            config.auto_dial_enabled == switch_is_on(ReplyLine::AutoDial, autodial_cfg@),
            config.dial_mode == dial_mode(autodial_cfg@),
    {
        let pcie_lines = split_lines(chars_of(pcie_cfg).as_slice());
        let pm_lines = split_lines(chars_of(pm_cfg).as_slice());
        let autodial_lines = split_lines(chars_of(autodial_cfg).as_slice());

        let mut pcie_lan_mode: i32 = 1;
        if let Some(i) = ReplyLine::LanMode.find_last(&pcie_lines) {
            let prefix = chars_of(ReplyLine::LanMode.prefix());
            let payload = without_repeated_prefix(pcie_lines[i].as_slice(), prefix.as_slice());
            if let Some(mode) = parse_decimal_i32(trimmed(payload.as_slice()).as_slice()) {
                pcie_lan_mode = mode;
            }
        }
        let mut dial_mode: i32 = 0;
        if let Some(i) = ReplyLine::DialMode.find_last(&autodial_lines) {
            let prefix = chars_of(ReplyLine::DialMode.prefix());
            let payload = without_repeated_prefix(autodial_lines[i].as_slice(), prefix.as_slice());
            let parts = split_chars(payload.as_slice(), ',');
            assert(views(parts@)[1] == parts@[1]@);
            if let Some(mode) = parse_decimal_i32(trimmed(parts[1].as_slice()).as_slice()) {
                dial_mode = mode;
            }
        }
        ConfigInfo {
            pcie_lan_mode,
            pcie_pm_enabled: Self::switch(ReplyLine::PowerManagement, &pm_lines),
            auto_dial_enabled: Self::switch(ReplyLine::AutoDial, &autodial_lines),
            dial_mode,
        }
    }
}

} // verus!
