//! Per-target settings and the precedence between their layers.

use vstd::prelude::*;
use crate::keys::GbaKeyMappings;

verus! {

/// Settings for one target.
#[derive(Debug)]
pub struct BinaryConfig {
    /// Input sequence run before capture starts.
    pub before_capture: Option<String>,
    /// Input sequence run while frames are captured.
    pub during_capture: Option<String>,
    /// Key mappings for this target.
    pub key_mappings: Option<GbaKeyMappings>,
}

/// Settings that apply to every target.
#[derive(Debug)]
pub struct ConfigSettings {
    /// Global key mappings.
    pub key_mappings: Option<GbaKeyMappings>,
    /// Sequences used by targets that have no settings of their own.
    pub default: Option<BinaryConfig>,
}

/// The whole capture configuration.
#[derive(Debug)]
pub struct CaptureConfig {
    pub settings: Option<ConfigSettings>,
    /// Settings by target name; where a name occurs twice, the first entry counts.
    pub binaries: Option<Vec<(String, BinaryConfig)>>,
}

/// The settings of the first entry named `name`.
pub open spec fn find_binary(entries: Seq<(String, BinaryConfig)>, name: Seq<char>) -> Option<BinaryConfig>
    decreases entries.len(),
{
    if entries.len() == 0 {
        None
    } else if entries[0].0@ == name {
        Some(entries[0].1)
    } else {
        find_binary(entries.drop_first(), name)
    }
}

/// The settings of the target named `name`, if the configuration has any.
pub open spec fn target_settings(c: CaptureConfig, name: Seq<char>) -> Option<BinaryConfig> {
    match c.binaries {
        Some(b) => find_binary(b@, name),
        None => None,
    }
}

/// The key mappings given for the target itself.
pub open spec fn target_layer(c: CaptureConfig, name: Seq<char>) -> Option<GbaKeyMappings> {
    match target_settings(c, name) {
        Some(bc) => bc.key_mappings,
        None => None,
    }
}

/// The key mappings given for all targets.
pub open spec fn global_layer(c: CaptureConfig) -> Option<GbaKeyMappings> {
    match c.settings {
        Some(s) => s.key_mappings,
        None => None,
    }
}

/// The most specific configured key mappings; `None` leaves the built-in ones.
pub open spec fn effective_mapping(name: Seq<char>, config: Option<CaptureConfig>) -> Option<GbaKeyMappings> {
    match config {
        None => None,
        Some(c) => match target_layer(c, name) {
            Some(m) => Some(m),
            None => global_layer(c),
        },
    }
}

/// The before and during sequences that a target runs: those given on the
/// command line if either is, else the target's own settings, else the
/// configured defaults.
pub open spec fn input_sequences_for(
    name: Seq<char>,
    config: Option<CaptureConfig>,
    cli_before: Option<String>,
    cli_during: Option<String>,
) -> (Option<String>, Option<String>) {
    if cli_before is Some || cli_during is Some {
        (cli_before, cli_during)
    } else {
        match config {
            None => (None, None),
            Some(c) => match target_settings(c, name) {
                Some(bc) => (bc.before_capture, bc.during_capture),
                None => match c.settings {
                    Some(s) => match s.default {
                        Some(d) => (d.before_capture, d.during_capture),
                        None => (None, None),
                    },
                    None => (None, None),
                },
            },
        }
    }
}

/// The position of the first entry named `name`.
fn binary_index(entries: &Vec<(String, BinaryConfig)>, name: &str) -> (r: Option<usize>)
    ensures
        match r {
            Some(i) => i < entries@.len() && find_binary(entries@, name@) == Some(entries@[i as int].1),
            None => find_binary(entries@, name@) is None,
        },
{
    let mut i: usize = 0;
    assert(entries@.subrange(0, entries@.len() as int) =~= entries@);
    while i < entries.len()
        invariant
            i <= entries@.len(),
            find_binary(entries@, name@) == find_binary(
                entries@.subrange(i as int, entries@.len() as int),
                name@,
            ),
        decreases entries@.len() - i,
    {
        let ghost rest = entries@.subrange(i as int, entries@.len() as int);
        if crate::keys::same_text(entries[i].0.as_str(), name) {
            assert(rest[0] == entries@[i as int]);
            return Some(i);
        }
        assert(rest.drop_first() =~= entries@.subrange(i + 1, entries@.len() as int));
        i = i + 1;
    }
    None
}

fn clone_text(o: &Option<String>) -> (r: Option<String>)
    ensures
        r == *o,
{
    match o {
        Some(s) => Some(s.clone()),
        None => None,
    }
}

/// The input sequences for a target (command line > target > defaults).
pub fn get_binary_input_sequences(
    binary_name: &str,
    config: &Option<CaptureConfig>,
    cli_before: &Option<String>,
    cli_during: &Option<String>,
) -> (r: (Option<String>, Option<String>))
    ensures
        r == input_sequences_for(binary_name@, *config, *cli_before, *cli_during),
{
    if cli_before.is_some() || cli_during.is_some() {
        return (clone_text(cli_before), clone_text(cli_during));
    }
    if let Some(c) = config {
        if let Some(entries) = &c.binaries {
            if let Some(i) = binary_index(entries, binary_name) {
                let bc = &entries[i].1;
                return (clone_text(&bc.before_capture), clone_text(&bc.during_capture));
            }
        }
        if let Some(s) = &c.settings {
            if let Some(d) = &s.default {
                return (clone_text(&d.before_capture), clone_text(&d.during_capture));
            }
        }
    }
    (None, None)
}

/// The key mappings for a target (target > global > built-in).
pub fn get_effective_key_mappings(binary_name: &str, config: &Option<CaptureConfig>) -> (r: GbaKeyMappings)
    ensures
        match effective_mapping(binary_name@, *config) {
            Some(m) => r == m,
            None => r.is_builtin(),
        },
{
    if let Some(c) = config {
        if let Some(entries) = &c.binaries {
            if let Some(i) = binary_index(entries, binary_name) {
                if let Some(m) = &entries[i].1.key_mappings {
                    return m.duplicate();
                }
            }
        }
        if let Some(s) = &c.settings {
            if let Some(m) = &s.key_mappings {
                return m.duplicate();
            }
        }
    }
    GbaKeyMappings::default()
}

/// Key mappings given for a target override global ones, which override the
/// built-in ones.
pub proof fn lemma_mapping_precedence(name: Seq<char>, c: CaptureConfig)
    ensures
        target_layer(c, name) matches Some(t) ==> effective_mapping(name, Some(c)) == Some(t),
        target_layer(c, name) is None ==> (global_layer(c) matches Some(g) ==> effective_mapping(
            name,
            Some(c),
        ) == Some(g)),
        target_layer(c, name) is None && global_layer(c) is None ==> effective_mapping(
            name,
            Some(c),
        ) is None,
        effective_mapping(name, None) is None,
{
}

} // verus!
