//! The decisions of the gateway's controller: which source to start, and
//! to which monitor a sorted packet goes.

use vstd::prelude::*;
use crate::byte_stuffing::unstuffed;
use crate::psorter::Counters;
use crate::psorter::Outcome;
use crate::psorter::PSorter;
use crate::psorter::PackageStruct;
use crate::psorter::category_of;
use crate::psorter::is_verdict;
use crate::psorter::CONTROL;
use crate::psorter::POWER_USAGE;
use crate::psorter::SYSTEM;
use crate::psorter::TEMPERATURE;

verus! {

/// Where the packets are read from.
#[derive(Clone, Copy, Debug, PartialEq, Eq, Structural)]
pub enum ReadOperation {
    /// The serial line.
    Uart,
    /// A captured dump.
    Dump,
    /// The CAN bus, for which there is no reader.
    Can,
}

/// A monitor that packets are published to.
#[derive(Clone, Copy, Debug, PartialEq, Eq, Structural)]
pub enum Monitor {
    /// Temperature measurements.
    TMonitor,
    /// System parameters.
    SMonitor,
    /// Power usage.
    PUMonitor,
    /// Everything else, and every category that is not known.
    OMonitor,
    /// Control packets.
    CMonitor,
}

/// The monitor of a category. A category that is not known goes to the
/// overview monitor.
pub open spec fn monitor_of(pack_type: i32) -> Monitor {
    if pack_type == TEMPERATURE {
        Monitor::TMonitor
    } else if pack_type == SYSTEM {
        Monitor::SMonitor
    } else if pack_type == POWER_USAGE {
        Monitor::PUMonitor
    } else if pack_type == CONTROL {
        Monitor::CMonitor
    } else {
        Monitor::OMonitor
    }
}

/// The TCP port that a monitor's endpoint is bound to.
pub open spec fn port_of(monitor: Monitor) -> u16 {
    match monitor {
        Monitor::TMonitor => 5555,
        Monitor::SMonitor => 5556,
        Monitor::PUMonitor => 5557,
        Monitor::OMonitor => 5558,
        Monitor::CMonitor => 5559,
    }
}

/// No two monitors share a port.
pub proof fn lemma_ports_are_distinct(a: Monitor, b: Monitor)
    ensures
        port_of(a) == port_of(b) <==> a == b,
{
}

/// Each of the five categories has a monitor of its own, so the port
/// tells the category.
pub proof fn lemma_categories_have_own_monitors(a: i32, b: i32)
    requires
        TEMPERATURE <= a <= CONTROL,
        TEMPERATURE <= b <= CONTROL,
    ensures
        monitor_of(a) == monitor_of(b) <==> a == b,
{
}

impl Monitor {
    /// The monitor of a category.
    pub fn for_category(pack_type: i32) -> (monitor: Monitor)
        ensures
            monitor == monitor_of(pack_type),
    {
        if pack_type == TEMPERATURE {
            Monitor::TMonitor
        } else if pack_type == SYSTEM {
            Monitor::SMonitor
        } else if pack_type == POWER_USAGE {
            Monitor::PUMonitor
        } else if pack_type == CONTROL {
            Monitor::CMonitor
        } else {
            Monitor::OMonitor
        }
    }

    /// The TCP port that the monitor's endpoint is bound to.
    pub fn port(&self) -> (port: u16)
        ensures
            port == port_of(*self),
    {
        match self {
            Monitor::TMonitor => 5555,
            Monitor::SMonitor => 5556,
            Monitor::PUMonitor => 5557,
            Monitor::OMonitor => 5558,
            Monitor::CMonitor => 5559,
        }
    }
}

/// A packet on its way to a monitor, decoded and with its checksum still
/// attached.
#[derive(Debug)]
pub struct Delivery {
    /// Where the packet goes.
    pub monitor: Monitor,
    /// The bytes to publish.
    pub packet: Vec<u8>,
}

/// Why the gateway cannot be set up as asked.
#[derive(Clone, Copy, Debug, PartialEq, Eq, Structural)]
pub enum ConfigError {
    /// The operation is none of `DUMP`, `UART` and `CAN`.
    UnknownOperation,
    /// The operation `DUMP` came without a file name.
    FilenameRequired,
    /// The controller was started on a dump and no file name was set.
    DumpFilenameNotSet,
}

/// What `start` asks to be launched.
#[derive(Debug)]
pub enum Launch {
    /// The reader of the serial line.
    Uart,
    /// The reader of the dump with this file name.
    Dump(String),
    /// Nothing: there is no reader for the chosen source.
    Nothing,
}

/// The operation that a name on the command line stands for: `DUMP`,
/// `UART` or `CAN`, in ASCII and in capitals.
pub open spec fn operation_named(name: Seq<u8>) -> Option<ReadOperation> {
    if name == seq![0x44u8, 0x55u8, 0x4Du8, 0x50u8] {
        Some(ReadOperation::Dump)
    } else if name == seq![0x55u8, 0x41u8, 0x52u8, 0x54u8] {
        Some(ReadOperation::Uart)
    } else if name == seq![0x43u8, 0x41u8, 0x4Eu8] {
        Some(ReadOperation::Can)
    } else {
        None
    }
}

/// Reads the operation from its name on the command line, which is one
/// of `DUMP`, `UART` and `CAN` in ASCII. `DUMP` needs a file name.
pub fn select_operation(name: &[u8], has_filename: bool) -> (selected: Result<
    ReadOperation,
    ConfigError,
>)
    ensures
        match operation_named(name@) {
            None => selected == Err::<ReadOperation, ConfigError>(ConfigError::UnknownOperation),
            Some(ReadOperation::Dump) => if has_filename {
                selected == Ok::<ReadOperation, ConfigError>(ReadOperation::Dump)
            } else {
                selected == Err::<ReadOperation, ConfigError>(ConfigError::FilenameRequired)
            },
            Some(operation) => selected == Ok::<ReadOperation, ConfigError>(operation),
        },
{
    let n: usize = name.len();
    if n == 4 && name[0] == 0x44 && name[1] == 0x55 && name[2] == 0x4D && name[3] == 0x50 {
        assert(name@ =~= seq![0x44u8, 0x55u8, 0x4Du8, 0x50u8]);
        if has_filename {
            Ok(ReadOperation::Dump)
        } else {
            Err(ConfigError::FilenameRequired)
        }
    } else if n == 4 && name[0] == 0x55 && name[1] == 0x41 && name[2] == 0x52 && name[3] == 0x54 {
        assert(name@ =~= seq![0x55u8, 0x41u8, 0x52u8, 0x54u8]);
        Ok(ReadOperation::Uart)
    } else if n == 3 && name[0] == 0x43 && name[1] == 0x41 && name[2] == 0x4E {
        assert(name@ =~= seq![0x43u8, 0x41u8, 0x4Eu8]);
        Ok(ReadOperation::Can)
    } else {
        Err(ConfigError::UnknownOperation)
    }
}

/// What a controller holds.
pub struct ControllerState {
    /// The chosen source.
    pub read_operation: ReadOperation,
    /// The file name of the dump, once it was set.
    pub dump_filename: Option<String>,
    /// What the sorter has counted.
    pub counters: Counters,
}

/// The controller's own state: the chosen source, the dump's file name
/// and the sorter with its counters.
pub struct Controller {
    p_sorter: PSorter,
    dump_filename: Option<String>,
    read_operation: ReadOperation,
}

impl View for Controller {
    type V = ControllerState;

    closed spec fn view(&self) -> ControllerState {
        ControllerState {
            read_operation: self.read_operation,
            dump_filename: self.dump_filename,
            counters: self.p_sorter@,
        }
    }
}

impl Controller {
    /// What holds of the controller at all times: its sorter's counters
    /// are consistent.
    pub open spec fn inv(&self) -> bool {
        self@.counters.consistent()
    }

    /// A controller that reads the serial line, with no file name and a
    /// sorter that has seen nothing.
    pub fn new() -> (controller: Self)
        ensures
            controller.inv(),
            controller@ == (ControllerState {
                read_operation: ReadOperation::Uart,
                dump_filename: None,
                counters: Counters { received: 0, valid: 0, invalid: 0, temperature: 0 },
            }),
    {
        Self { p_sorter: PSorter::new(), dump_filename: None, read_operation: ReadOperation::Uart }
    }

    /// Chooses the source.
    pub fn set_read_operation(&mut self, operation: ReadOperation)
        ensures
            final(self)@ == (ControllerState { read_operation: operation, ..old(self)@ }),
    {
        self.read_operation = operation;
    }

    /// Sets the file name of the dump.
    pub fn set_dump_filename(&mut self, filename: String)
        ensures
            final(self)@ == (ControllerState { dump_filename: Some(filename), ..old(self)@ }),
    {
        self.dump_filename = Some(filename);
    }

    /// The chosen source.
    pub fn read_operation(&self) -> (operation: ReadOperation)
        ensures
            operation == self@.read_operation,
    {
        self.read_operation
    }

    /// The sorter, for its counters.
    pub fn sorter(&self) -> (sorter: &PSorter)
        ensures
            sorter@ == self@.counters,
    {
        &self.p_sorter
    }

    /// Says what is to be launched for the chosen source. A dump needs
    /// its file name.
    pub fn start(&self) -> (plan: Result<Launch, ConfigError>)
        ensures
            match self@.read_operation {
                ReadOperation::Uart => plan matches Ok(Launch::Uart),
                ReadOperation::Dump => match self@.dump_filename {
                    Some(filename) => plan matches Ok(Launch::Dump(name)) && name == filename,
                    None => plan matches Err(ConfigError::DumpFilenameNotSet),
                },
                ReadOperation::Can => plan matches Ok(Launch::Nothing),
            },
    {
        match self.read_operation {
            ReadOperation::Uart => Ok(Launch::Uart),
            ReadOperation::Dump => match &self.dump_filename {
                Some(filename) => Ok(Launch::Dump(filename.clone())),
                None => Err(ConfigError::DumpFilenameNotSet),
            },
            ReadOperation::Can => Ok(Launch::Nothing),
        }
    }

    /// Takes one raw frame from the queue through the sorter and says to
    /// which monitor it is to be sent. Nothing is sent for an empty frame
    /// or one whose checksum is wrong.
    pub fn handle_packages<F: Fn(&[u8]) -> u16>(&mut self, package: &[u8], checksum: F) -> (delivery:
        Option<Delivery>)
        requires
            old(self).inv(),
            package@.len() > 0 ==> old(self)@.counters.received < u32::MAX,
            forall|p: &[u8]| call_requires(checksum, (p,)),
        ensures
            final(self).inv(),
            final(self)@.read_operation == old(self)@.read_operation,
            final(self)@.dump_filename == old(self)@.dump_filename,
            package@.len() == 0 ==> delivery is None && final(self)@ == old(self)@,
            package@.len() > 0 ==> exists|is_crc: bool| #[trigger]
                is_verdict(checksum, unstuffed(package@), is_crc) && final(self)@.counters == old(
                    self,
                )@.counters.after(unstuffed(package@), is_crc) && is_delivery_of(
                    delivery,
                    unstuffed(package@),
                    is_crc,
                ),
    {
        let outcome = self.p_sorter.slot_input_package(package, checksum);
        route(outcome)
    }
}

/// Whether `delivery` is what a packet that was not empty comes to, given
/// its decoded form and the verdict on its checksum: with a good verdict
/// it goes to the monitor of its category as it is, else nowhere.
pub open spec fn is_delivery_of(delivery: Option<Delivery>, frame: Seq<u8>, is_crc: bool) -> bool {
    if is_crc {
        &&& delivery matches Some(d)
        &&& d.monitor == monitor_of(category_of(PackageStruct::decoded(frame)))
        &&& d.packet@ == frame
    } else {
        delivery is None
    }
}

/// Chooses the monitor for what the sorter made of a packet.
pub fn route(outcome: Outcome) -> (delivery: Option<Delivery>)
    ensures
        match outcome {
            Outcome::Dispatched { category, packet } => {
                &&& delivery matches Some(d)
                &&& d.monitor == monitor_of(category)
                &&& d.packet == packet
            },
            _ => delivery is None,
        },
{
    match outcome {
        Outcome::Dispatched { category, packet } => Some(
            Delivery { monitor: Monitor::for_category(category), packet },
        ),
        _ => None,
    }
}

} // verus!
