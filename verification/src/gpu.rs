//! Graphics adapters: the rows that a vendor tool prints for discrete
//! adapters, and the lines of system listings that name an integrated one.

use vstd::prelude::*;
use crate::text::{
    chars_of, contains, has_part, lines, parse_u32, pieces_of, split, split_lines, split_on,
    string_of, strip_leading, to_u32, trim, trim_start_matches, trimmed,
};

verus! {

/// The text in lower case, as Unicode defines it.
pub uninterp spec fn lowercase(text: Seq<char>) -> Seq<char>;

/// `str::to_lowercase`: the text in lower case. The result depends on the
/// text alone.
pub assume_specification[ str::to_lowercase ](text: &str) -> (lowered: String)
    ensures
        lowered@ == lowercase(text@),
;

/// The characters of a text in lower case.
fn lowered_chars(text: &[char]) -> (lowered: Vec<char>)
    ensures
        lowered@ == lowercase(text@),
{
    let owned = string_of(text);
    let lowered = owned.as_str().to_lowercase();
    chars_of(lowered.as_str())
}

/// A discrete adapter as the vendor tool prints it.
#[derive(Debug, PartialEq, Eq)]
pub struct GpuReading {
    pub model: String,
    /// All memory, as printed: a number of mebibytes.
    pub total_memory: String,
    /// Memory in use, as printed: a number of mebibytes.
    pub used_memory: String,
    /// Free memory, as printed: a number of mebibytes.
    pub free_memory: String,
    /// Temperature, in degrees Celsius; zero where none was printed.
    pub temperature: u32,
}

/// What a `GpuReading` holds.
pub ghost struct GpuReadingView {
    pub model: Seq<char>,
    pub total_memory: Seq<char>,
    pub used_memory: Seq<char>,
    pub free_memory: Seq<char>,
    pub temperature: u32,
}

impl View for GpuReading {
    type V = GpuReadingView;

    open spec fn view(&self) -> GpuReadingView {
        GpuReadingView {
            model: self.model@,
            total_memory: self.total_memory@,
            used_memory: self.used_memory@,
            free_memory: self.free_memory@,
            temperature: self.temperature,
        }
    }
}

/// What a list of adapters holds.
pub open spec fn readings_of(list: Seq<GpuReading>) -> Seq<GpuReadingView> {
    list.map_values(|reading: GpuReading| reading@)
}

/// What an optional list of adapters holds.
pub open spec fn found_of(found: Option<Vec<GpuReading>>) -> Option<Seq<GpuReadingView>> {
    match found {
        Some(list) => Some(readings_of(list@)),
        None => None,
    }
}

/// The adapter on a row: a row of five fields between commas gives one, with
/// each field taken without the white space around it; the temperature is
/// the number in the last field, or zero where that is no number.
pub open spec fn gpu_reading(line: Seq<char>) -> Option<GpuReadingView> {
    let fields = split(line, ',');
    if fields.len() == 5 {
        Some(
            GpuReadingView {
                model: trim(fields[0]),
                total_memory: trim(fields[1]),
                used_memory: trim(fields[2]),
                free_memory: trim(fields[3]),
                temperature: match parse_u32(trim(fields[4])) {
                    Some(degrees) => degrees,
                    None => 0,
                },
            },
        )
    } else {
        None
    }
}

/// The adapters on the rows of a list, in the order of the rows.
pub open spec fn gpu_readings(list: Seq<Seq<char>>) -> Seq<GpuReadingView>
    decreases list.len(),
{
    if list.len() == 0 {
        Seq::empty()
    } else {
        let before = gpu_readings(list.drop_last());
        match gpu_reading(list.last()) {
            Some(reading) => before.push(reading),
            None => before,
        }
    }
}

/// The adapters that the vendor tool printed, where it printed any.
pub open spec fn gpu_info(output: Seq<char>) -> Option<Seq<GpuReadingView>> {
    let found = gpu_readings(lines(output));
    if found.len() > 0 {
        Some(found)
    } else {
        None
    }
}

/// Reads the discrete adapters out of what the vendor tool printed: one
/// adapter for each row of five fields. Without such a row there is none.
pub fn get_gpu_info(output: &str) -> (found: Option<Vec<GpuReading>>)
    ensures
        found_of(found) == gpu_info(output@),
{
    let chars = chars_of(output);
    let list = split_lines(chars.as_slice());
    let mut gpus: Vec<GpuReading> = Vec::new();
    let mut i: usize = 0;
    proof {
        assert(readings_of(gpus@) =~= Seq::empty());
        assert(pieces_of(list@).take(0) =~= Seq::empty());
    }
    while i < list.len()
        invariant
            i <= list@.len(),
            readings_of(gpus@) == gpu_readings(pieces_of(list@).take(i as int)),
        decreases list@.len() - i,
    {
        proof {
            let longer = pieces_of(list@).take(i + 1);
            assert(longer.drop_last() =~= pieces_of(list@).take(i as int));
            assert(longer.last() == list@[i as int]@);
        }
        let fields = split_on(list[i].as_slice(), ',');
        if fields.len() == 5 {
            proof {
                assert(pieces_of(fields@)[0] == fields@[0]@);
                assert(pieces_of(fields@)[1] == fields@[1]@);
                assert(pieces_of(fields@)[2] == fields@[2]@);
                assert(pieces_of(fields@)[3] == fields@[3]@);
                assert(pieces_of(fields@)[4] == fields@[4]@);
            }
            let temperature: u32 = match to_u32(trimmed(fields[4].as_slice())) {
                Some(degrees) => degrees,
                None => 0,
            };
            let reading = GpuReading {
                model: string_of(trimmed(fields[0].as_slice())),
                total_memory: string_of(trimmed(fields[1].as_slice())),
                used_memory: string_of(trimmed(fields[2].as_slice())),
                free_memory: string_of(trimmed(fields[3].as_slice())),
                temperature,
            };
            let ghost shorter = readings_of(gpus@);
            gpus.push(reading);
            proof {
                assert(gpu_reading(list@[i as int]@) == Some(reading@));
                assert(readings_of(gpus@) =~= shorter.push(reading@));
            }
        }
        i = i + 1;
    }
    proof {
        assert(pieces_of(list@).take(list@.len() as int) =~= pieces_of(list@));
    }
    if gpus.len() > 0 {
        Some(gpus)
    } else {
        None
    }
}

/// Whether a text in lower case names a maker of processors with graphics.
pub open spec fn names_processor_maker(lowered: Seq<char>) -> bool {
    contains(lowered, "intel"@) || contains(lowered, "amd"@)
}

/// Whether a text in lower case names integrated graphics: a maker of
/// processors with graphics, or the product line `uhd`.
pub open spec fn names_integrated_graphics(lowered: Seq<char>) -> bool {
    names_processor_maker(lowered) || contains(lowered, "uhd"@)
}

/// Whether a text in lower case names a maker of processors with graphics.
pub fn is_processor_maker(lowered: &[char]) -> (named: bool)
    ensures
        named == names_processor_maker(lowered@),
{
    let intel = chars_of("intel");
    let amd = chars_of("amd");
    has_part(lowered, intel.as_slice()) || has_part(lowered, amd.as_slice())
}

/// Whether a text in lower case names integrated graphics.
pub fn is_integrated_graphics(lowered: &[char]) -> (named: bool)
    ensures
        named == names_integrated_graphics(lowered@),
{
    let uhd = chars_of("uhd");
    is_processor_maker(lowered) || has_part(lowered, uhd.as_slice())
}

/// The first line of a list on which `pick` finds something, and what it
/// finds there.
pub open spec fn first_found(
    list: Seq<Seq<char>>,
    pick: spec_fn(Seq<char>) -> Option<Seq<char>>,
) -> Option<Seq<char>>
    decreases list.len(),
{
    if list.len() == 0 {
        None
    } else if pick(list[0]) is Some {
        pick(list[0])
    } else {
        first_found(list.drop_first(), pick)
    }
}

/// Lines on which nothing is found do not count.
proof fn lemma_first_found_skips(
    list: Seq<Seq<char>>,
    pick: spec_fn(Seq<char>) -> Option<Seq<char>>,
    n: int,
)
    requires
        0 <= n <= list.len(),
        forall|i: int| 0 <= i < n ==> pick(list[i]) is None,
    ensures
        first_found(list, pick) == first_found(list.skip(n), pick),
    decreases n,
{
    if n > 0 {
        lemma_first_found_skips(list.drop_first(), pick, n - 1);
        assert(list.drop_first().skip(n - 1) =~= list.skip(n));
    } else {
        assert(list.skip(0) =~= list);
    }
}

/// What an optional text holds.
pub open spec fn text_of(text: Option<String>) -> Option<Seq<char>> {
    match text {
        Some(text) => Some(text@),
        None => None,
    }
}

/// The name on the second line of a listing of video controllers, without
/// the white space around it, where that line holds a name.
pub open spec fn integrated_gpu_model_windows(output: Seq<char>) -> Option<Seq<char>> {
    let list = lines(output);
    if list.len() >= 2 && trim(list[1]).len() > 0 {
        Some(trim(list[1]))
    } else {
        None
    }
}

/// Reads the name of the first video controller out of a listing whose first
/// line is a heading.
pub fn get_integrated_gpu_model_windows(output: &str) -> (model: Option<String>)
    ensures
        text_of(model) == integrated_gpu_model_windows(output@),
{
    let chars = chars_of(output);
    let list = split_lines(chars.as_slice());
    if list.len() >= 2 {
        proof {
            assert(pieces_of(list@)[1] == list@[1]@);
        }
        let name = trimmed(list[1].as_slice());
        if name.len() > 0 {
            return Some(string_of(name));
        }
    }
    None
}

/// A line that names integrated graphics gives that name, without the white
/// space around it.
pub open spec fn integrated_name_on() -> spec_fn(Seq<char>) -> Option<Seq<char>> {
    |line: Seq<char>|
        {
            let name = trim(line);
            if name.len() > 0 && names_integrated_graphics(lowercase(name)) {
                Some(name)
            } else {
                None
            }
        }
}

/// The first name of integrated graphics in a listing of video controllers
/// whose first line is a heading.
pub open spec fn cpu_integrated_gpu_model_windows(output: Seq<char>) -> Option<Seq<char>> {
    let list = lines(output);
    if list.len() >= 1 {
        first_found(list.skip(1), integrated_name_on())
    } else {
        None
    }
}

/// Reads the name of the graphics built into the processor out of a listing
/// of video controllers whose first line is a heading.
pub fn get_cpu_integrated_gpu_model_windows(output: &str) -> (model: Option<String>)
    ensures
        text_of(model) == cpu_integrated_gpu_model_windows(output@),
{
    let chars = chars_of(output);
    let list = split_lines(chars.as_slice());
    if list.len() == 0 {
        return None;
    }
    let ghost rest = pieces_of(list@).skip(1);
    let mut i: usize = 1;
    while i < list.len()
        invariant
            1 <= i <= list@.len(),
            rest == pieces_of(list@).skip(1),
            pieces_of(list@) == lines(output@),
            forall|k: int| 0 <= k < i - 1 ==> integrated_name_on()(rest[k]) is None,
        decreases list@.len() - i,
    {
        proof {
            assert(rest[i - 1] == list@[i as int]@);
        }
        let name = trimmed(list[i].as_slice());
        if name.len() > 0 {
            let lowered = lowered_chars(name);
            if is_integrated_graphics(lowered.as_slice()) {
                proof {
                    lemma_first_found_skips(rest, integrated_name_on(), i - 1);
                    assert(rest.skip(i - 1)[0] == rest[i - 1]);
                }
                return Some(string_of(name));
            }
        }
        i = i + 1;
    }
    proof {
        lemma_first_found_skips(rest, integrated_name_on(), rest.len() as int);
        assert(rest.skip(rest.len() as int).len() == 0);
    }
    None
}

/// A line that tells of a display controller by a maker of processors with
/// graphics gives the whole line.
pub open spec fn controller_line_on() -> spec_fn(Seq<char>) -> Option<Seq<char>> {
    |line: Seq<char>|
        if contains(line, "VGA compatible controller"@) && names_processor_maker(
            lowercase(line),
        ) {
            Some(line)
        } else {
            None
        }
}

/// The first line of a listing of devices that tells of integrated graphics.
pub open spec fn cpu_integrated_gpu_model_linux(output: Seq<char>) -> Option<Seq<char>> {
    first_found(lines(output), controller_line_on())
}

/// Reads the line of the graphics built into the processor out of a listing
/// of devices.
pub fn get_cpu_integrated_gpu_model_linux(output: &str) -> (model: Option<String>)
    ensures
        text_of(model) == cpu_integrated_gpu_model_linux(output@),
{
    let chars = chars_of(output);
    let list = split_lines(chars.as_slice());
    let controller = chars_of("VGA compatible controller");
    let ghost all = pieces_of(list@);
    let mut i: usize = 0;
    while i < list.len()
        invariant
            i <= list@.len(),
            all == pieces_of(list@),
            all == lines(output@),
            controller@ == "VGA compatible controller"@,
            forall|k: int| 0 <= k < i ==> controller_line_on()(all[k]) is None,
        decreases list@.len() - i,
    {
        proof {
            assert(all[i as int] == list@[i as int]@);
        }
        let line = list[i].as_slice();
        if has_part(line, controller.as_slice()) {
            let lowered = lowered_chars(line);
            if is_processor_maker(lowered.as_slice()) {
                proof {
                    lemma_first_found_skips(all, controller_line_on(), i as int);
                    assert(all.skip(i as int)[0] == all[i as int]);
                }
                return Some(string_of(line));
            }
        }
        i = i + 1;
    }
    proof {
        lemma_first_found_skips(all, controller_line_on(), all.len() as int);
        assert(all.skip(all.len() as int).len() == 0);
    }
    None
}

/// The model on a line that tells of a chipset: what follows the words
/// `Chipset Model:` at the start of the line, without the white space
/// around.
pub open spec fn chipset_model(line: Seq<char>) -> Seq<char> {
    trim(trim_start_matches(trim(line), "Chipset Model:"@))
}

/// A line that tells of a chipset by a maker of processors with graphics
/// gives the model of the chipset.
pub open spec fn chipset_model_on() -> spec_fn(Seq<char>) -> Option<Seq<char>> {
    |line: Seq<char>|
        if contains(line, "Chipset Model:"@) && names_processor_maker(
            lowercase(chipset_model(line)),
        ) {
            Some(chipset_model(line))
        } else {
            None
        }
}

/// The first chipset model in a report on displays that tells of integrated
/// graphics.
pub open spec fn cpu_integrated_gpu_model_macos(output: Seq<char>) -> Option<Seq<char>> {
    first_found(lines(output), chipset_model_on())
}

/// Reads the model of the graphics built into the processor out of a report
/// on displays.
pub fn get_cpu_integrated_gpu_model_macos(output: &str) -> (model: Option<String>)
    ensures
        text_of(model) == cpu_integrated_gpu_model_macos(output@),
{
    let chars = chars_of(output);
    let list = split_lines(chars.as_slice());
    let chipset = chars_of("Chipset Model:");
    let ghost all = pieces_of(list@);
    let mut i: usize = 0;
    while i < list.len()
        invariant
            i <= list@.len(),
            all == pieces_of(list@),
            all == lines(output@),
            chipset@ == "Chipset Model:"@,
            forall|k: int| 0 <= k < i ==> chipset_model_on()(all[k]) is None,
        decreases list@.len() - i,
    {
        proof {
            assert(all[i as int] == list@[i as int]@);
        }
        let line = list[i].as_slice();
        if has_part(line, chipset.as_slice()) {
            let model = trimmed(strip_leading(trimmed(line), chipset.as_slice()));
            let lowered = lowered_chars(model);
            if is_processor_maker(lowered.as_slice()) {
                proof {
                    lemma_first_found_skips(all, chipset_model_on(), i as int);
                    assert(all.skip(i as int)[0] == all[i as int]);
                }
                return Some(string_of(model));
            }
        }
        i = i + 1;
    }
    proof {
        lemma_first_found_skips(all, chipset_model_on(), all.len() as int);
        assert(all.skip(all.len() as int).len() == 0);
    }
    None
}

} // verus!
