//! The state of the NPU, as far as the system's files show it.

use vstd::prelude::*;
use crate::job;
use crate::text;

verus! {

/// The state of the NPU.
#[derive(Debug)]
pub struct NpuStatus {
    pub module_loaded: bool,
    pub device_exists: bool,
    pub device_accessible: bool,
    pub firmware_version: Option<String>,
    pub columns: Option<u32>,
    pub driver_version: Option<String>,
}

/// The value of the NPU's state.
#[verifier::ext_equal]
pub struct NpuStatusView {
    pub module_loaded: bool,
    pub device_exists: bool,
    pub device_accessible: bool,
    pub firmware_version: Option<Seq<char>>,
    pub columns: Option<u32>,
    pub driver_version: Option<Seq<char>>,
}

impl View for NpuStatus {
    type V = NpuStatusView;

    open spec fn view(&self) -> NpuStatusView {
        NpuStatusView {
            module_loaded: self.module_loaded,
            device_exists: self.device_exists,
            device_accessible: self.device_accessible,
            firmware_version: job::optional_text(self.firmware_version),
            columns: self.columns,
            driver_version: job::optional_text(self.driver_version),
        }
    }
}

/// What was read from the system. A file that could not be read has no content.
pub struct NpuProbe {
    /// The list of loaded kernel modules.
    pub modules: Option<String>,
    /// Whether the device file exists.
    pub device_exists: bool,
    /// Whether the device file's metadata could be read.
    pub device_readable: bool,
    /// The files that may hold the firmware version, in the order of preference.
    pub firmware: Vec<Option<String>>,
    /// The files that may hold the number of columns, in the order of preference.
    pub columns: Vec<Option<String>>,
    /// The file that may hold the driver version.
    pub driver: Option<String>,
}

/// Whether a line starts at position `i` of a text.
pub open spec fn line_start(s: Seq<char>, i: int) -> bool {
    0 <= i <= s.len() && (i == 0 || s[i - 1] == '\n')
}

/// Whether some line of a list of kernel modules starts with the name of the driver, followed
/// by a space.
pub open spec fn lists_driver(s: Seq<char>) -> bool {
    exists|i: int| #[trigger] line_start(s, i) && text::stands_at(s, "amdxdna "@, i)
}

/// The text that a version file gives: its content without the white space around it, if
/// anything is left.
pub open spec fn version_in(s: Seq<char>) -> Option<Seq<char>> {
    let v = text::trimmed(s);
    if v.len() == 0 {
        None
    } else {
        Some(v)
    }
}

/// The number that a file gives: the unsigned 32-bit number that its content denotes, white
/// space around it aside.
pub open spec fn number_in(s: Seq<char>) -> Option<u32> {
    match text::unsigned_value(text::trimmed(s), u32::MAX as nat) {
        Some(v) => Some(v as u32),
        None => None,
    }
}

/// The version that a file gives; none where it could not be read.
pub open spec fn version_of(file: Option<String>) -> Option<Seq<char>> {
    match file {
        Some(s) => version_in(s@),
        None => None,
    }
}

/// The number that a file gives; none where it could not be read.
pub open spec fn number_of(file: Option<String>) -> Option<u32> {
    match file {
        Some(s) => number_in(s@),
        None => None,
    }
}

/// The version of the first file that gives one.
pub open spec fn first_version(files: Seq<Option<String>>) -> Option<Seq<char>>
    decreases files.len(),
{
    if files.len() == 0 {
        None
    } else if version_of(files[0]) is Some {
        version_of(files[0])
    } else {
        first_version(files.drop_first())
    }
}

/// The number of the first file that gives one.
pub open spec fn first_number(files: Seq<Option<String>>) -> Option<u32>
    decreases files.len(),
{
    if files.len() == 0 {
        None
    } else if number_of(files[0]) is Some {
        number_of(files[0])
    } else {
        first_number(files.drop_first())
    }
}

/// The state of the NPU that a probe shows.
pub open spec fn status_of(probe: NpuProbe) -> NpuStatusView {
    NpuStatusView {
        module_loaded: match probe.modules {
            Some(s) => lists_driver(s@),
            None => false,
        },
        device_exists: probe.device_exists,
        device_accessible: probe.device_exists && probe.device_readable,
        firmware_version: first_version(probe.firmware@),
        columns: first_number(probe.columns@),
        driver_version: version_of(probe.driver),
    }
}

/// Whether a list of kernel modules names the driver.
pub fn module_loaded(modules: &str) -> (res: bool)
    ensures
        res == lists_driver(modules@),
{
    let chars = text::to_chars(modules);
    let name = text::to_chars("amdxdna ");
    let mut i: usize = 0;
    while i < chars.len()
        invariant
            i <= chars@.len(),
            chars@ == modules@,
            name@ == "amdxdna "@,
            forall|j: int|
                0 <= j < i && #[trigger] line_start(chars@, j) ==> !text::stands_at(
                    chars@,
                    "amdxdna "@,
                    j,
                ),
        decreases chars@.len() - i,
    {
        if (i == 0 || chars[i - 1] == '\n') && text::matches_at(&chars, &name, i) {
            assert(line_start(chars@, i as int));
            return true;
        }
        i = i + 1;
    }
    proof {
        reveal_strlit("amdxdna ");
    }
    false
}

/// The version that a file's content gives.
pub fn version_text(content: &str) -> (res: Option<String>)
    ensures
        job::optional_text(res) == version_in(content@),
{
    let v = text::trim(content);
    if v.as_str().is_empty() {
        None
    } else {
        Some(v)
    }
}

/// The number that a file's content gives.
pub fn number_value(content: &str) -> (res: Option<u32>)
    ensures
        res == number_in(content@),
{
    let v = text::trim(content);
    let chars = text::to_chars(v.as_str());
    assert(chars@.skip(0) == chars@);
    text::parse_unsigned(&chars, 0, u32::MAX)
}

/// The firmware version: that of the first of the files that gives one.
pub fn read_sysfs_firmware_version(files: &Vec<Option<String>>) -> (res: Option<String>)
    ensures
        job::optional_text(res) == first_version(files@),
{
    let mut i: usize = 0;
    assert(files@.skip(0) == files@);
    while i < files.len()
        invariant
            i <= files@.len(),
            first_version(files@) == first_version(files@.skip(i as int)),
        decreases files@.len() - i,
    {
        assert(files@.skip(i as int).drop_first() == files@.skip(i + 1));
        assert(files@.skip(i as int)[0] == files@[i as int]);
        if let Some(content) = &files[i] {
            let v = version_text(content.as_str());
            if v.is_some() {
                return v;
            }
        }
        i = i + 1;
    }
    None
}

/// The number of columns: that of the first of the files that gives one.
pub fn read_sysfs_columns(files: &Vec<Option<String>>) -> (res: Option<u32>)
    ensures
        res == first_number(files@),
{
    let mut i: usize = 0;
    assert(files@.skip(0) == files@);
    while i < files.len()
        invariant
            i <= files@.len(),
            first_number(files@) == first_number(files@.skip(i as int)),
        decreases files@.len() - i,
    {
        assert(files@.skip(i as int).drop_first() == files@.skip(i + 1));
        assert(files@.skip(i as int)[0] == files@[i as int]);
        if let Some(content) = &files[i] {
            let n = number_value(content.as_str());
            if n.is_some() {
                return n;
            }
        }
        i = i + 1;
    }
    None
}

/// The driver version, if the file gives one.
pub fn read_driver_version(file: &Option<String>) -> (res: Option<String>)
    ensures
        job::optional_text(res) == version_of(*file),
{
    match file {
        Some(content) => version_text(content.as_str()),
        None => None,
    }
}

/// The state of the NPU that a probe shows.
pub fn check_npu_status(probe: &NpuProbe) -> (res: NpuStatus)
    ensures
        res@ == status_of(*probe),
{
    let loaded = match &probe.modules {
        Some(s) => module_loaded(s.as_str()),
        None => false,
    };
    NpuStatus {
        module_loaded: loaded,
        device_exists: probe.device_exists,
        device_accessible: probe.device_exists && probe.device_readable,
        firmware_version: read_sysfs_firmware_version(&probe.firmware),
        columns: read_sysfs_columns(&probe.columns),
        driver_version: read_driver_version(&probe.driver),
    }
}

// What the values of this module mean.

/// The value of the NPU's state shows each of its fields as it is.
pub proof fn law_npu_view(npu: NpuStatus)
    ensures
        npu@.module_loaded == npu.module_loaded,
        npu@.device_exists == npu.device_exists,
        npu@.device_accessible == npu.device_accessible,
        npu@.columns == npu.columns,
        npu.firmware_version is Some <==> npu@.firmware_version is Some,
        npu.firmware_version is Some ==> npu@.firmware_version->0 == npu.firmware_version->0@,
        npu.driver_version is Some <==> npu@.driver_version is Some,
        npu.driver_version is Some ==> npu@.driver_version->0 == npu.driver_version->0@,
{
}

/// The driver is listed exactly if its name and a space stand at the start of the list or behind a
/// line break.
pub proof fn law_lists_driver(s: Seq<char>)
    ensures
        lists_driver(s) <==> exists|i: int|
            {
                &&& 0 <= i
                &&& i + "amdxdna "@.len() <= s.len()
                &&& #[trigger] s.subrange(i, i + "amdxdna "@.len()) == "amdxdna "@
                &&& i == 0 || s[i - 1] == '\n'
            },
{
    if lists_driver(s) {
        let i = choose|i: int| #[trigger] line_start(s, i) && text::stands_at(s, "amdxdna "@, i);
        assert(s.subrange(i, i + "amdxdna "@.len()) == "amdxdna "@);
    }
    if exists|i: int|
        {
            &&& 0 <= i
            &&& i + "amdxdna "@.len() <= s.len()
            &&& #[trigger] s.subrange(i, i + "amdxdna "@.len()) == "amdxdna "@
            &&& i == 0 || s[i - 1] == '\n'
        } {
        let i = choose|i: int|
            {
                &&& 0 <= i
                &&& i + "amdxdna "@.len() <= s.len()
                &&& #[trigger] s.subrange(i, i + "amdxdna "@.len()) == "amdxdna "@
                &&& i == 0 || s[i - 1] == '\n'
            };
        assert(line_start(s, i) && text::stands_at(s, "amdxdna "@, i));
    }
}

/// A version file gives its content without the white space around it, if anything is left of it;
/// a number file gives the number that it denotes, white space aside, up to 4,294,967,295.
pub proof fn law_file_values(s: Seq<char>)
    ensures
        text::trimmed(s).len() == 0 ==> version_in(s) is None,
        text::trimmed(s).len() > 0 ==> version_in(s) == Some(text::trimmed(s)),
        match text::unsigned_value(text::trimmed(s), 4_294_967_295) {
            Some(v) => number_in(s) is Some && number_in(s)->0 == v,
            None => number_in(s) is None,
        },
{
}

/// Of several files the first that gives a value counts: one that could not be read, or that gives
/// none, is passed over.
pub proof fn law_first_file_counts(content: String, rest: Seq<Option<String>>)
    ensures
        first_version(Seq::empty()) is None,
        first_number(Seq::empty()) is None,
        first_version(seq![None::<String>] + rest) == first_version(rest),
        first_number(seq![None::<String>] + rest) == first_number(rest),
        version_in(content@) is Some ==> first_version(seq![Some(content)] + rest) == version_in(
            content@,
        ),
        version_in(content@) is None ==> first_version(seq![Some(content)] + rest)
            == first_version(rest),
        number_in(content@) is Some ==> first_number(seq![Some(content)] + rest) == number_in(
            content@,
        ),
        number_in(content@) is None ==> first_number(seq![Some(content)] + rest) == first_number(
            rest,
        ),
{
    assert((seq![None::<String>] + rest).drop_first() == rest);
    assert((seq![Some(content)] + rest).drop_first() == rest);
}

/// What a probe shows: the driver is loaded if the list of modules could be read and names it; the
/// device is accessible if it exists and could be read; each value comes from its own files.
pub proof fn law_status_of(probe: NpuProbe)
    ensures
        probe.modules is None ==> !status_of(probe).module_loaded,
        probe.modules is Some ==> (status_of(probe).module_loaded <==> lists_driver(
            probe.modules->0@,
        )),
        status_of(probe).device_exists == probe.device_exists,
        status_of(probe).device_accessible <==> probe.device_exists && probe.device_readable,
        status_of(probe).firmware_version == first_version(probe.firmware@),
        status_of(probe).columns == first_number(probe.columns@),
        probe.driver is None ==> status_of(probe).driver_version is None,
        probe.driver is Some ==> status_of(probe).driver_version == version_in(probe.driver->0@),
{
}

} // verus!
