//! The immutable configuration of one recovery run.

use vstd::prelude::*;

verus! {

/// What the caller asks for: where to recover from and to, which scan mode,
/// which file filters, and the tool's boolean switches.  The mode selector
/// resolves by precedence signature > segment > extensive > regular.
#[derive(Debug, Clone)]
pub struct RecoveryConfig {
    /// Source drive or path, handed to the tool verbatim as its first token.
    pub source: String,
    /// Destination directory; a trailing path separator is enforced.
    pub destination: String,
    /// Base mode selector: "extensive" asks for the extensive scan, anything
    /// else for the regular scan (unless a deep-scan switch overrides it).
    pub mode: String,
    /// Category names or custom filter patterns.
    pub filters: Vec<String>,
    /// Deep segment scan; implies the extensive scan.
    pub segment_mode: bool,
    /// Deep signature scan; implies the extensive scan and takes precedence
    /// over the segment scan.
    pub signature_mode: bool,
    /// Also recover files that were never deleted.
    pub recover_non_deleted: bool,
    /// Keep both files on a name clash.
    pub keep_both: bool,
    /// Answer the tool's prompts automatically.
    pub auto_accept: bool,
    /// Also recover system files.
    pub recover_system_files: bool,
    /// Keep all extensions.
    pub keep_all_extensions: bool,
    /// The declared filesystem of the source, when known; "exfat" (in any
    /// case) disables the keep-both switch as a crash workaround.
    pub source_fs: Option<String>,
    /// Verbose tool output; incompatible with the signature scan.
    pub verbose_mode: bool,
}

} // verus!
