//! The scan settings that the interface shows in its banner.

use vstd::prelude::*;

use crate::text::{decimal, push_decimal, truncate_path, truncated_middle};

verus! {

/// The configuration of a scan, as far as the interface shows it.
#[derive(Clone, Copy, Debug)]
pub struct ScanConfig {
    pub max_file_size: u64,
    pub threads: usize,
    pub cpu_limit: u8,
    pub scan_all_types: bool,
    pub scan_hard_drives: bool,
    pub scan_all_drives: bool,
    pub is_elevated: bool,
    pub exclusion_count: usize,
    pub yara_rules_count: usize,
    pub ioc_count: usize,
}

/// The settings panel: the target and the configuration, ready for display.
#[derive(Debug)]
pub struct SettingsDisplay {
    pub target_folder: String,
    pub threads: usize,
    pub cpu_limit: u8,
    pub max_file_size: String,
    pub scan_all_types: bool,
    pub scan_hard_drives: bool,
    pub scan_all_drives: bool,
    pub is_elevated: bool,
    pub exclusion_count: usize,
    pub yara_rules_count: usize,
    pub ioc_count: usize,
}

/// `v / d` rounded to the nearest whole number, ties to the even one.
pub open spec fn rounded_div(v: nat, d: nat) -> nat
    recommends
        d > 0,
{
    let q = v / d;
    let r = v % d;
    if 2 * r > d || (2 * r == d && q % 2 == 1) {
        q + 1
    } else {
        q
    }
}

/// A byte count in whole megabytes from a million bytes on, in whole
/// kilobytes from a thousand on, in bytes below.
pub open spec fn size_text(v: nat) -> Seq<char> {
    if v >= 1_000_000 {
        decimal(rounded_div(v, 1_000_000)) + " MB"@
    } else if v >= 1_000 {
        decimal(rounded_div(v, 1_000)) + " KB"@
    } else {
        decimal(v) + " B"@
    }
}

fn rounded(v: u64, d: u64) -> (q: u64)
    requires
        d >= 2,
    ensures
        q == rounded_div(v as nat, d as nat),
{
    let q = v / d;
    let r = v % d;
    assert(q <= v / 2) by (nonlinear_arith)
        requires
            d >= 2,
            q == v / d,
    ;
    if r > d - r || (r == d - r && q % 2 == 1) {
        q + 1
    } else {
        q
    }
}

/// The display text of a maximal file size (see `size_text`).
pub fn format_size(v: u64) -> (s: String)
    ensures
        s@ == size_text(v as nat),
{
    let mut s = String::new();
    if v >= 1_000_000 {
        push_decimal(&mut s, rounded(v, 1_000_000));
        s.append(" MB");
    } else if v >= 1_000 {
        push_decimal(&mut s, rounded(v, 1_000));
        s.append(" KB");
    } else {
        push_decimal(&mut s, v);
        s.append(" B");
    }
    assert(s@ =~= size_text(v as nat));
    s
}

impl SettingsDisplay {
    /// The settings of `config` for a scan of `target_folder`.
    pub fn from_config(config: &ScanConfig, target_folder: &str) -> (d: SettingsDisplay)
        ensures
            d.target_folder@ == target_folder@,
            d.threads == config.threads,
            d.cpu_limit == config.cpu_limit,
            d.max_file_size@ == size_text(config.max_file_size as nat),
            d.scan_all_types == config.scan_all_types,
            d.scan_hard_drives == config.scan_hard_drives,
            d.scan_all_drives == config.scan_all_drives,
            d.is_elevated == config.is_elevated,
            d.exclusion_count == config.exclusion_count,
            d.yara_rules_count == config.yara_rules_count,
            d.ioc_count == config.ioc_count,
    {
        SettingsDisplay {
            target_folder: String::from_str(target_folder),
            threads: config.threads,
            cpu_limit: config.cpu_limit,
            max_file_size: format_size(config.max_file_size),
            scan_all_types: config.scan_all_types,
            scan_hard_drives: config.scan_hard_drives,
            scan_all_drives: config.scan_all_drives,
            is_elevated: config.is_elevated,
            exclusion_count: config.exclusion_count,
            yara_rules_count: config.yara_rules_count,
            ioc_count: config.ioc_count,
        }
    }

    /// The target folder shortened from the middle to `max_len` characters.
    pub fn truncate_path(&self, max_len: usize) -> (s: String)
        ensures
            s@ == truncated_middle(self.target_folder@, max_len as nat),
    {
        truncate_path(self.target_folder.as_str(), max_len)
    }
}

} // verus!
