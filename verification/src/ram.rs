//! Memory modules as a system profiler lists them: blocks of lines, one
//! block for each module, with the speed and the type of the module on lines
//! of their own.

use vstd::prelude::*;
use crate::memory::{get_modern_memory_format, modern_memory_format};
use crate::text::{
    chars_of, has_prefix, lines, parse_u32, pieces_of, remove_all, split_lines, starts_with,
    string_of, strip_leading, to_u32, trim, trim_start_matches, trimmed, without,
};

verus! {

/// A memory module as the report shows it.
#[derive(Debug, PartialEq, Eq)]
pub struct MemoryModule {
    /// Speed, in MHz, where it is known.
    pub speed: Option<u32>,
    /// The memory technology, where it is known.
    pub memory_format: Option<String>,
}

/// What a `MemoryModule` holds.
pub ghost struct MemoryModuleView {
    pub speed: Option<u32>,
    pub memory_format: Option<Seq<char>>,
}

impl View for MemoryModule {
    type V = MemoryModuleView;

    open spec fn view(&self) -> MemoryModuleView {
        MemoryModuleView {
            speed: self.speed,
            memory_format: match self.memory_format {
                Some(format) => Some(format@),
                None => None,
            },
        }
    }
}

/// What a list of memory modules holds.
pub open spec fn modules_of(list: Seq<MemoryModule>) -> Seq<MemoryModuleView> {
    list.map_values(|module: MemoryModule| module@)
}

/// The module of a firmware record: its speed, and the name of its
/// technology.
pub open spec fn module_of_record(
    speed: Option<u32>,
    smbios: Option<u32>,
    memory_type: Option<u32>,
) -> MemoryModuleView {
    MemoryModuleView {
        speed,
        memory_format: Some(modern_memory_format(smbios, memory_type)),
    }
}

/// Makes the module of a firmware record.
pub fn memory_module(speed: Option<u32>, smbios: Option<u32>, memory_type: Option<u32>) -> (module:
    MemoryModule)
    ensures
        module@ == module_of_record(speed, smbios, memory_type),
{
    MemoryModule {
        speed,
        memory_format: Some(get_modern_memory_format(smbios, memory_type).to_owned()),
    }
}

/// How far a profile has been read: the modules of the blocks that have
/// ended, and what the lines of the current block have shown.
pub ghost struct ProfileState {
    pub modules: Seq<MemoryModuleView>,
    pub speed: Option<u32>,
    pub memory_format: Option<Seq<char>>,
}

/// Nothing has been read.
pub open spec fn profile_start() -> ProfileState {
    ProfileState { modules: Seq::empty(), speed: None, memory_format: None }
}

/// The end of a block: a block that has shown a speed or a type is a module,
/// and the next block starts with neither.
pub open spec fn profile_block_end(state: ProfileState) -> ProfileState {
    if state.speed is Some || state.memory_format is Some {
        ProfileState {
            modules: state.modules.push(
                MemoryModuleView { speed: state.speed, memory_format: state.memory_format },
            ),
            speed: None,
            memory_format: None,
        }
    } else {
        state
    }
}

/// The speed on a line that starts with `Speed:`: the number that is left of
/// the rest of the line without the unit `MHz` and the white space around.
pub open spec fn speed_on(line: Seq<char>) -> Option<u32> {
    parse_u32(trim(without(trim(trim_start_matches(line, "Speed:"@)), "MHz"@)))
}

/// The type on a line that starts with `Type:`: the rest of the line without
/// the white space around.
pub open spec fn type_on(line: Seq<char>) -> Seq<char> {
    trim(trim_start_matches(line, "Type:"@))
}

/// One line of a profile. An empty line ends a block. A line with a speed
/// that is a number sets the speed of the block, a line with a type sets its
/// type, and every other line is passed over.
pub open spec fn profile_line(state: ProfileState, line: Seq<char>) -> ProfileState {
    let line = trim(line);
    if line.len() == 0 {
        profile_block_end(state)
    } else if starts_with(line, "Speed:"@) {
        if speed_on(line) is Some {
            ProfileState { speed: speed_on(line), ..state }
        } else {
            state
        }
    } else if starts_with(line, "Type:"@) {
        ProfileState { memory_format: Some(type_on(line)), ..state }
    } else {
        state
    }
}

/// The lines of a profile, one after the other.
pub open spec fn profile_lines(state: ProfileState, list: Seq<Seq<char>>) -> ProfileState
    decreases list.len(),
{
    if list.len() == 0 {
        state
    } else {
        profile_line(profile_lines(state, list.drop_last()), list.last())
    }
}

/// The modules of a profile: those of its blocks, the last of which needs no
/// empty line after it.
pub open spec fn memory_profile(output: Seq<char>) -> Seq<MemoryModuleView> {
    profile_block_end(profile_lines(profile_start(), lines(output))).modules
}

/// What the reader of a profile holds.
pub open spec fn profile_state(
    modules: Seq<MemoryModule>,
    speed: Option<u32>,
    memory_format: Option<String>,
) -> ProfileState {
    ProfileState {
        modules: modules_of(modules),
        speed,
        memory_format: match memory_format {
            Some(format) => Some(format@),
            None => None,
        },
    }
}

/// Reads the memory modules out of the report of the system profiler.
pub fn get_ram_info(output: &str) -> (infos: Vec<MemoryModule>)
    ensures
        modules_of(infos@) == memory_profile(output@),
{
    let chars = chars_of(output);
    let list = split_lines(chars.as_slice());
    let speed_key = chars_of("Speed:");
    let type_key = chars_of("Type:");
    let unit = chars_of("MHz");
    let mut infos: Vec<MemoryModule> = Vec::new();
    let mut current_speed: Option<u32> = None;
    let mut current_type: Option<String> = None;
    let mut i: usize = 0;
    proof {
        assert(modules_of(infos@) =~= Seq::empty());
        assert(pieces_of(list@).take(0) =~= Seq::empty());
    }
    while i < list.len()
        invariant
            i <= list@.len(),
            speed_key@ == "Speed:"@,
            type_key@ == "Type:"@,
            unit@ == "MHz"@,
            profile_state(infos@, current_speed, current_type) == profile_lines(
                profile_start(),
                pieces_of(list@).take(i as int),
            ),
        decreases list@.len() - i,
    {
        let ghost before = profile_state(infos@, current_speed, current_type);
        proof {
            let longer = pieces_of(list@).take(i + 1);
            assert(longer.drop_last() =~= pieces_of(list@).take(i as int));
            assert(longer.last() == list@[i as int]@);
        }
        let line = trimmed(list[i].as_slice());
        if line.len() == 0 {
            if current_speed.is_some() || current_type.is_some() {
                let ghost shorter = modules_of(infos@);
                let module = MemoryModule { speed: current_speed, memory_format: current_type };
                infos.push(module);
                current_speed = None;
                current_type = None;
                proof {
                    assert(modules_of(infos@) =~= shorter.push(module@));
                }
            }
        } else if has_prefix(line, speed_key.as_slice()) {
            let value = trimmed(strip_leading(line, speed_key.as_slice()));
            let digits = remove_all(value, unit.as_slice());
            if let Some(number) = to_u32(trimmed(digits.as_slice())) {
                current_speed = Some(number);
            }
        } else if has_prefix(line, type_key.as_slice()) {
            let format = string_of(trimmed(strip_leading(line, type_key.as_slice())));
            current_type = Some(format);
        }
        proof {
            assert(profile_state(infos@, current_speed, current_type) == profile_line(
                before,
                list@[i as int]@,
            ));
        }
        i = i + 1;
    }
    proof {
        assert(pieces_of(list@).take(list@.len() as int) =~= pieces_of(list@));
    }
    if current_speed.is_some() || current_type.is_some() {
        let ghost shorter = modules_of(infos@);
        let module = MemoryModule { speed: current_speed, memory_format: current_type };
        infos.push(module);
        proof {
            assert(modules_of(infos@) =~= shorter.push(module@));
        }
    }
    infos
}

} // verus!
