//! The closed sets of names the record format speaks: metric kinds,
//! header keys, panel groups, application modes and log levels, with
//! explicit parse and format functions in place of string-keyed lookups.

#![allow(non_camel_case_types)]

use vstd::prelude::*;

use crate::numfmt::dec_of;
use crate::strutil::{contains_char, str_eq};

verus! {

/// A metric the sampler can be asked to collect each tick.
#[derive(Clone, Copy, Debug, PartialEq, Eq, Hash, Structural)]
pub enum SimpleDataCollectionMode {
    CPU_USAGE_TOTAL,
    CPU_USAGE_PER_CORE,
    SWAP_FREE,
    SWAP_USED,
    MEMORY_USED,
    MEMORY_FREE,
    MEMORY_AVAILABLE,
}

/// A column of the record: the timestamp, a plain metric, or a tracked
/// process's CPU or memory column with its index and display name.
#[derive(Clone, Debug, PartialEq, Eq, Hash)]
pub enum DataType {
    UNIX_TIMESTAMP,
    CPU_USAGE_TOTAL,
    CPU_USAGE_PER_CORE,
    SWAP_FREE,
    SWAP_USED,
    MEMORY_USED,
    MEMORY_FREE,
    MEMORY_AVAILABLE,
    CUSTOM_CPU(usize, String),
    CUSTOM_MEMORY(usize, String),
}

/// A key of the record's first header line.
#[derive(Clone, Copy, Debug, PartialEq, Eq, Hash, Structural)]
pub enum HeaderValues {
    MEMORY_TOTAL,
    SWAP_TOTAL,
    CPU_CORE_COUNT,
    INTERVAL_SECONDS,
    APP_VERSION,
    UNIX_TIMESTAMP_START_TIME,
}

/// A chart panel group derived from the columns present in a record.
#[derive(Clone, Copy, Debug, PartialEq, Eq, Hash, Structural)]
pub enum GeneralInfoGroup {
    CPU,
    MEMORY,
    SWAP,
}

/// What a run of the application should do.
#[derive(Clone, Copy, Debug, PartialEq, Eq, Hash, Structural)]
pub enum AppMode {
    COLLECT,
    COLLECT_AND_CONVERT,
    CONVERT,
}

/// Verbosity of the log output.
#[derive(Clone, Copy, Debug, PartialEq, Eq, Hash, Structural)]
pub enum LogLev {
    Off,
    Error,
    Warn,
    Info,
    Debug,
    Trace,
}

/// The column token of a collection mode.
pub open spec fn simple_mode_token(m: SimpleDataCollectionMode) -> Seq<char> {
    match m {
        SimpleDataCollectionMode::CPU_USAGE_TOTAL => "CPU_USAGE_TOTAL"@,
        SimpleDataCollectionMode::CPU_USAGE_PER_CORE => "CPU_USAGE_PER_CORE"@,
        SimpleDataCollectionMode::SWAP_FREE => "SWAP_FREE"@,
        SimpleDataCollectionMode::SWAP_USED => "SWAP_USED"@,
        SimpleDataCollectionMode::MEMORY_USED => "MEMORY_USED"@,
        SimpleDataCollectionMode::MEMORY_FREE => "MEMORY_FREE"@,
        SimpleDataCollectionMode::MEMORY_AVAILABLE => "MEMORY_AVAILABLE"@,
    }
}

/// The column token of a data type, also used for the two derived
/// columns of a tracked process.
pub open spec fn data_type_token(d: DataType) -> Seq<char> {
    match d {
        DataType::UNIX_TIMESTAMP => "UNIX_TIMESTAMP"@,
        DataType::CPU_USAGE_TOTAL => "CPU_USAGE_TOTAL"@,
        DataType::CPU_USAGE_PER_CORE => "CPU_USAGE_PER_CORE"@,
        DataType::SWAP_FREE => "SWAP_FREE"@,
        DataType::SWAP_USED => "SWAP_USED"@,
        DataType::MEMORY_USED => "MEMORY_USED"@,
        DataType::MEMORY_FREE => "MEMORY_FREE"@,
        DataType::MEMORY_AVAILABLE => "MEMORY_AVAILABLE"@,
        DataType::CUSTOM_CPU(idx, _name) => "CUSTOM_"@ + dec_of(idx as nat) + "_CPU"@,
        DataType::CUSTOM_MEMORY(idx, _name) => "CUSTOM_"@ + dec_of(idx as nat) + "_MEMORY"@,
    }
}

/// The key token of a header value.
pub open spec fn header_value_token(h: HeaderValues) -> Seq<char> {
    match h {
        HeaderValues::MEMORY_TOTAL => "MEMORY_TOTAL"@,
        HeaderValues::SWAP_TOTAL => "SWAP_TOTAL"@,
        HeaderValues::CPU_CORE_COUNT => "CPU_CORE_COUNT"@,
        HeaderValues::INTERVAL_SECONDS => "INTERVAL_SECONDS"@,
        HeaderValues::APP_VERSION => "APP_VERSION"@,
        HeaderValues::UNIX_TIMESTAMP_START_TIME => "UNIX_TIMESTAMP_START_TIME"@,
    }
}

/// The data type a collection mode's column is read back as.
pub open spec fn mode_data_type(m: SimpleDataCollectionMode) -> DataType {
    match m {
        SimpleDataCollectionMode::CPU_USAGE_TOTAL => DataType::CPU_USAGE_TOTAL,
        SimpleDataCollectionMode::CPU_USAGE_PER_CORE => DataType::CPU_USAGE_PER_CORE,
        SimpleDataCollectionMode::SWAP_FREE => DataType::SWAP_FREE,
        SimpleDataCollectionMode::SWAP_USED => DataType::SWAP_USED,
        SimpleDataCollectionMode::MEMORY_USED => DataType::MEMORY_USED,
        SimpleDataCollectionMode::MEMORY_FREE => DataType::MEMORY_FREE,
        SimpleDataCollectionMode::MEMORY_AVAILABLE => DataType::MEMORY_AVAILABLE,
    }
}

/// Which fixed data type a column token names, if any; tracked-process
/// tokens and unknown tokens are not fixed data types.
pub open spec fn spec_parse_fixed_data_type(s: Seq<char>) -> Option<DataType> {
    if s == "UNIX_TIMESTAMP"@ {
        Some(DataType::UNIX_TIMESTAMP)
    } else if s == "CPU_USAGE_TOTAL"@ {
        Some(DataType::CPU_USAGE_TOTAL)
    } else if s == "CPU_USAGE_PER_CORE"@ {
        Some(DataType::CPU_USAGE_PER_CORE)
    } else if s == "SWAP_FREE"@ {
        Some(DataType::SWAP_FREE)
    } else if s == "SWAP_USED"@ {
        Some(DataType::SWAP_USED)
    } else if s == "MEMORY_USED"@ {
        Some(DataType::MEMORY_USED)
    } else if s == "MEMORY_FREE"@ {
        Some(DataType::MEMORY_FREE)
    } else if s == "MEMORY_AVAILABLE"@ {
        Some(DataType::MEMORY_AVAILABLE)
    } else {
        None
    }
}

impl SimpleDataCollectionMode {
    /// The column token this mode writes.
    pub fn as_str(&self) -> (s: &'static str)
        ensures
            s@ == simple_mode_token(*self),
    {
        match self {
            SimpleDataCollectionMode::CPU_USAGE_TOTAL => "CPU_USAGE_TOTAL",
            SimpleDataCollectionMode::CPU_USAGE_PER_CORE => "CPU_USAGE_PER_CORE",
            SimpleDataCollectionMode::SWAP_FREE => "SWAP_FREE",
            SimpleDataCollectionMode::SWAP_USED => "SWAP_USED",
            SimpleDataCollectionMode::MEMORY_USED => "MEMORY_USED",
            SimpleDataCollectionMode::MEMORY_FREE => "MEMORY_FREE",
            SimpleDataCollectionMode::MEMORY_AVAILABLE => "MEMORY_AVAILABLE",
        }
    }

    /// The data type this mode's column is read back as.
    pub fn data_type(&self) -> (d: DataType)
        ensures
            d == mode_data_type(*self),
    {
        match self {
            SimpleDataCollectionMode::CPU_USAGE_TOTAL => DataType::CPU_USAGE_TOTAL,
            SimpleDataCollectionMode::CPU_USAGE_PER_CORE => DataType::CPU_USAGE_PER_CORE,
            SimpleDataCollectionMode::SWAP_FREE => DataType::SWAP_FREE,
            SimpleDataCollectionMode::SWAP_USED => DataType::SWAP_USED,
            SimpleDataCollectionMode::MEMORY_USED => DataType::MEMORY_USED,
            SimpleDataCollectionMode::MEMORY_FREE => DataType::MEMORY_FREE,
            SimpleDataCollectionMode::MEMORY_AVAILABLE => DataType::MEMORY_AVAILABLE,
        }
    }
}

impl HeaderValues {
    /// The key token this header value writes.
    pub fn as_str(&self) -> (s: &'static str)
        ensures
            s@ == header_value_token(*self),
    {
        match self {
            HeaderValues::MEMORY_TOTAL => "MEMORY_TOTAL",
            HeaderValues::SWAP_TOTAL => "SWAP_TOTAL",
            HeaderValues::CPU_CORE_COUNT => "CPU_CORE_COUNT",
            HeaderValues::INTERVAL_SECONDS => "INTERVAL_SECONDS",
            HeaderValues::APP_VERSION => "APP_VERSION",
            HeaderValues::UNIX_TIMESTAMP_START_TIME => "UNIX_TIMESTAMP_START_TIME",
        }
    }
}

/// The fixed data type a column token names, if any.
pub fn parse_fixed_data_type(s: &str) -> (r: Option<DataType>)
    ensures
        r == spec_parse_fixed_data_type(s@),
{
    if str_eq(s, "UNIX_TIMESTAMP") {
        Some(DataType::UNIX_TIMESTAMP)
    } else if str_eq(s, "CPU_USAGE_TOTAL") {
        Some(DataType::CPU_USAGE_TOTAL)
    } else if str_eq(s, "CPU_USAGE_PER_CORE") {
        Some(DataType::CPU_USAGE_PER_CORE)
    } else if str_eq(s, "SWAP_FREE") {
        Some(DataType::SWAP_FREE)
    } else if str_eq(s, "SWAP_USED") {
        Some(DataType::SWAP_USED)
    } else if str_eq(s, "MEMORY_USED") {
        Some(DataType::MEMORY_USED)
    } else if str_eq(s, "MEMORY_FREE") {
        Some(DataType::MEMORY_FREE)
    } else if str_eq(s, "MEMORY_AVAILABLE") {
        Some(DataType::MEMORY_AVAILABLE)
    } else {
        None
    }
}

/// True when the data type is one of the memory columns.
pub open spec fn spec_is_memory(d: DataType) -> bool {
    match d {
        DataType::MEMORY_USED => true,
        DataType::MEMORY_FREE => true,
        DataType::MEMORY_AVAILABLE => true,
        DataType::CUSTOM_MEMORY(_, _) => true,
        _ => false,
    }
}

/// True when the data type is one of the swap columns.
pub open spec fn spec_is_swap(d: DataType) -> bool {
    match d {
        DataType::SWAP_USED => true,
        DataType::SWAP_FREE => true,
        _ => false,
    }
}

/// True when the data type is one of the CPU columns.
pub open spec fn spec_is_cpu(d: DataType) -> bool {
    match d {
        DataType::CPU_USAGE_TOTAL => true,
        DataType::CPU_USAGE_PER_CORE => true,
        DataType::CUSTOM_CPU(_, _) => true,
        _ => false,
    }
}

/// Human-readable label of a data type.
pub open spec fn spec_pretty_print(d: DataType) -> Seq<char> {
    match d {
        DataType::UNIX_TIMESTAMP => "Unix timestamp"@,
        DataType::CPU_USAGE_TOTAL => "CPU usage total"@,
        DataType::CPU_USAGE_PER_CORE => "CPU usage per core"@,
        DataType::MEMORY_USED => "Memory used"@,
        DataType::MEMORY_FREE => "Memory free"@,
        DataType::SWAP_FREE => "Swap free"@,
        DataType::SWAP_USED => "Swap used"@,
        DataType::MEMORY_AVAILABLE => "Memory available"@,
        DataType::CUSTOM_CPU(_idx, name) => "CPU usage for "@ + name@,
        DataType::CUSTOM_MEMORY(_idx, name) => "Memory usage for "@ + name@,
    }
}

impl DataType {
    /// The column tokens a record may use besides tracked-process ones.
    pub fn get_allowed_values() -> (s: String)
        ensures
            s@
                == "UNIX_TIMESTAMP, CPU_USAGE_TOTAL, CPU_USAGE_PER_CORE, SWAP_FREE, SWAP_USED, MEMORY_USED, MEMORY_FREE, MEMORY_AVAILABLE, CUSTOM_CPU, CUSTOM_MEMORY"@,
    {
        String::from_str(
            "UNIX_TIMESTAMP, CPU_USAGE_TOTAL, CPU_USAGE_PER_CORE, SWAP_FREE, SWAP_USED, MEMORY_USED, MEMORY_FREE, MEMORY_AVAILABLE, CUSTOM_CPU, CUSTOM_MEMORY",
        )
    }

    /// Whether this column belongs to the memory panel.
    pub fn is_memory(&self) -> (r: bool)
        ensures
            r == spec_is_memory(*self),
    {
        match self {
            DataType::MEMORY_USED => true,
            DataType::MEMORY_FREE => true,
            DataType::MEMORY_AVAILABLE => true,
            DataType::CUSTOM_MEMORY(_, _) => true,
            _ => false,
        }
    }

    /// Whether this column belongs to the swap panel.
    pub fn is_swap(&self) -> (r: bool)
        ensures
            r == spec_is_swap(*self),
    {
        match self {
            DataType::SWAP_USED => true,
            DataType::SWAP_FREE => true,
            _ => false,
        }
    }

    /// Whether this column belongs to the CPU panel.
    pub fn is_cpu(&self) -> (r: bool)
        ensures
            r == spec_is_cpu(*self),
    {
        match self {
            DataType::CPU_USAGE_TOTAL => true,
            DataType::CPU_USAGE_PER_CORE => true,
            DataType::CUSTOM_CPU(_, _) => true,
            _ => false,
        }
    }

    /// Human-readable label of this column.
    pub fn pretty_print(&self) -> (s: String)
        ensures
            s@ == spec_pretty_print(*self),
    {
        match self {
            DataType::UNIX_TIMESTAMP => String::from_str("Unix timestamp"),
            DataType::CPU_USAGE_TOTAL => String::from_str("CPU usage total"),
            DataType::CPU_USAGE_PER_CORE => String::from_str("CPU usage per core"),
            DataType::MEMORY_USED => String::from_str("Memory used"),
            DataType::MEMORY_FREE => String::from_str("Memory free"),
            DataType::SWAP_FREE => String::from_str("Swap free"),
            DataType::SWAP_USED => String::from_str("Swap used"),
            DataType::MEMORY_AVAILABLE => String::from_str("Memory available"),
            DataType::CUSTOM_CPU(_idx, name) => String::from_str("CPU usage for ").concat(
                name.as_str(),
            ),
            DataType::CUSTOM_MEMORY(_idx, name) => String::from_str("Memory usage for ").concat(
                name.as_str(),
            ),
        }
    }
}

/// A mode's column token and the token of the data type it maps to are
/// the same.
pub proof fn lemma_mode_token_agrees(m: SimpleDataCollectionMode)
    ensures
        simple_mode_token(m) == data_type_token(mode_data_type(m)),
{
}

/// Parsing the token of a fixed data type gives that data type back.
pub proof fn lemma_parse_fixed_of_token(d: DataType)
    requires
        !(d is CUSTOM_CPU),
        !(d is CUSTOM_MEMORY),
    ensures
        spec_parse_fixed_data_type(data_type_token(d)) is Some,
        spec_parse_fixed_data_type(data_type_token(d))->0 == d,
{
    reveal_strlit("UNIX_TIMESTAMP");
    reveal_strlit("CPU_USAGE_TOTAL");
    reveal_strlit("CPU_USAGE_PER_CORE");
    reveal_strlit("SWAP_FREE");
    reveal_strlit("SWAP_USED");
    reveal_strlit("MEMORY_USED");
    reveal_strlit("MEMORY_FREE");
    reveal_strlit("MEMORY_AVAILABLE");
    assert("UNIX_TIMESTAMP"@.len() == 14);
    assert("CPU_USAGE_TOTAL"@.len() == 15);
    assert("CPU_USAGE_PER_CORE"@.len() == 18);
    assert("SWAP_FREE"@.len() == 9);
    assert("SWAP_USED"@.len() == 9);
    assert("MEMORY_USED"@.len() == 11);
    assert("MEMORY_FREE"@.len() == 11);
    assert("MEMORY_AVAILABLE"@.len() == 16);
    match d {
        DataType::UNIX_TIMESTAMP => {
            let t = data_type_token(d);
            assert(d == DataType::UNIX_TIMESTAMP);
            assert(spec_parse_fixed_data_type(data_type_token(d))->0 == d);
        },
        DataType::CPU_USAGE_TOTAL => {
            let t = data_type_token(d);
            assert(t != "UNIX_TIMESTAMP"@);
            assert(d == DataType::CPU_USAGE_TOTAL);
            assert(spec_parse_fixed_data_type(data_type_token(d))->0 == d);
        },
        DataType::CPU_USAGE_PER_CORE => {
            let t = data_type_token(d);
            assert(t != "UNIX_TIMESTAMP"@);
            assert(t != "CPU_USAGE_TOTAL"@);
            assert(d == DataType::CPU_USAGE_PER_CORE);
            assert(spec_parse_fixed_data_type(data_type_token(d))->0 == d);
        },
        DataType::SWAP_FREE => {
            let t = data_type_token(d);
            assert(t != "UNIX_TIMESTAMP"@);
            assert(t != "CPU_USAGE_TOTAL"@);
            assert(t != "CPU_USAGE_PER_CORE"@);
            assert(d == DataType::SWAP_FREE);
            assert(spec_parse_fixed_data_type(data_type_token(d))->0 == d);
        },
        DataType::SWAP_USED => {
            let t = data_type_token(d);
            assert(t != "UNIX_TIMESTAMP"@);
            assert(t != "CPU_USAGE_TOTAL"@);
            assert(t != "CPU_USAGE_PER_CORE"@);
            assert(t != "SWAP_FREE"@) by {
                assert(t[5] == 'U' && "SWAP_FREE"@[5] == 'F');
            }
            assert(d == DataType::SWAP_USED);
            assert(spec_parse_fixed_data_type(data_type_token(d))->0 == d);
        },
        DataType::MEMORY_USED => {
            let t = data_type_token(d);
            assert(t != "UNIX_TIMESTAMP"@);
            assert(t != "CPU_USAGE_TOTAL"@);
            assert(t != "CPU_USAGE_PER_CORE"@);
            assert(t != "SWAP_FREE"@);
            assert(t != "SWAP_USED"@);
            assert(d == DataType::MEMORY_USED);
            assert(spec_parse_fixed_data_type(data_type_token(d))->0 == d);
        },
        DataType::MEMORY_FREE => {
            let t = data_type_token(d);
            assert(t != "UNIX_TIMESTAMP"@);
            assert(t != "CPU_USAGE_TOTAL"@);
            assert(t != "CPU_USAGE_PER_CORE"@);
            assert(t != "SWAP_FREE"@);
            assert(t != "SWAP_USED"@);
            assert(t != "MEMORY_USED"@) by {
                assert(t[7] == 'F' && "MEMORY_USED"@[7] == 'U');
            }
            assert(d == DataType::MEMORY_FREE);
            assert(spec_parse_fixed_data_type(data_type_token(d))->0 == d);
        },
        DataType::MEMORY_AVAILABLE => {
            let t = data_type_token(d);
            assert(t != "UNIX_TIMESTAMP"@);
            assert(t != "CPU_USAGE_TOTAL"@);
            assert(t != "CPU_USAGE_PER_CORE"@);
            assert(t != "SWAP_FREE"@);
            assert(t != "SWAP_USED"@);
            assert(t != "MEMORY_USED"@);
            assert(t != "MEMORY_FREE"@);
            assert(d == DataType::MEMORY_AVAILABLE);
            assert(spec_parse_fixed_data_type(data_type_token(d))->0 == d);
        },
        _ => {},
    }
}

/// A token that starts with "CU" names no fixed data type.
pub proof fn lemma_parse_fixed_custom_prefix(s: Seq<char>)
    requires
        s.len() >= 2,
        s[0] == 'C',
        s[1] == 'U',
    ensures
        spec_parse_fixed_data_type(s) is None,
{
    reveal_strlit("UNIX_TIMESTAMP");
    reveal_strlit("CPU_USAGE_TOTAL");
    reveal_strlit("CPU_USAGE_PER_CORE");
    reveal_strlit("SWAP_FREE");
    reveal_strlit("SWAP_USED");
    reveal_strlit("MEMORY_USED");
    reveal_strlit("MEMORY_FREE");
    reveal_strlit("MEMORY_AVAILABLE");
}

/// No fixed column token contains a comma, an equals sign or a newline.
pub proof fn lemma_mode_token_free(m: SimpleDataCollectionMode, c: char)
    requires
        c == ',' || c == '=' || c == '\n',
    ensures
        !contains_char(simple_mode_token(m), c),
{
    reveal_strlit("CPU_USAGE_TOTAL");
    reveal_strlit("CPU_USAGE_PER_CORE");
    reveal_strlit("SWAP_FREE");
    reveal_strlit("SWAP_USED");
    reveal_strlit("MEMORY_USED");
    reveal_strlit("MEMORY_FREE");
    reveal_strlit("MEMORY_AVAILABLE");
}

} // verus!
