//! Which search indexes `hiutil` builds, and what the user is told when it
//! cannot run.

use vstd::prelude::*;

use crate::bundle::{inserted_map, lemma_info_plist_values, spec_info_plist_entries};
use crate::config::{AppleHelpConfig, IndexFormat};

verus! {

/// One `hiutil` run: the index format and the file it writes.
pub struct HiutilJob {
    pub format: String,
    pub output_file: String,
}

/// The `hiutil` runs for the configured index format, in order: Core
/// Spotlight into `<title>.cshelpindex`, LSM into `<title>.helpindex`.
pub open spec fn spec_hiutil_jobs(cfg: AppleHelpConfig) -> Seq<(Seq<char>, Seq<char>)> {
    let cs = ("corespotlight"@, cfg.title@ + ".cshelpindex"@);
    let ls = ("lsm"@, cfg.title@ + ".helpindex"@);
    match cfg.index_format {
        IndexFormat::CoreSpotlight => seq![cs],
        IndexFormat::Lsm => seq![ls],
        IndexFormat::Both => seq![cs, ls],
    }
}

/// The `hiutil` runs that building the indexes takes.
pub fn hiutil_jobs(cfg: &AppleHelpConfig) -> (r: Vec<HiutilJob>)
    ensures
        r@.map_values(|j: HiutilJob| (j.format@, j.output_file@)) == spec_hiutil_jobs(*cfg),
        forall|i: int|
            0 <= i < r@.len() ==> (#[trigger] r@[i].format@ == "lsm"@ ==> r@[i].output_file@ == cfg.title@
                + ".helpindex"@),
        forall|i: int|
            0 <= i < r@.len() ==> (#[trigger] r@[i].format@ == "corespotlight"@ ==> r@[i].output_file@
                == cfg.title@ + ".cshelpindex"@),
{
    let mut jobs: Vec<HiutilJob> = Vec::new();
    match cfg.index_format {
        IndexFormat::CoreSpotlight => {
            jobs.push(HiutilJob { format: String::from_str("corespotlight"), output_file: cfg.cshelp_index_filename() });
        },
        IndexFormat::Lsm => {
            jobs.push(HiutilJob { format: String::from_str("lsm"), output_file: cfg.lsm_index_filename() });
        },
        IndexFormat::Both => {
            jobs.push(HiutilJob { format: String::from_str("corespotlight"), output_file: cfg.cshelp_index_filename() });
            jobs.push(HiutilJob { format: String::from_str("lsm"), output_file: cfg.lsm_index_filename() });
        },
    }
    let ghost v = jobs@.map_values(|j: HiutilJob| (j.format@, j.output_file@));
    assert(v =~= spec_hiutil_jobs(*cfg));
    proof {
        lemma_hiutil_jobs_files(*cfg);
        assert forall|i: int| 0 <= i < jobs@.len() implies (jobs@[i].format@, jobs@[i].output_file@)
            == #[trigger] spec_hiutil_jobs(*cfg)[i] by {
            assert(v[i] == (jobs@[i].format@, jobs@[i].output_file@));
        }
    }
    jobs
}

/// Each `hiutil` run writes the index file that `Info.plist` names for its
/// format: `lsm` the `HPDBookLSIndexPath` (`<title>.helpindex`),
/// `corespotlight` the `HPDBookCSIndexPath` (`<title>.cshelpindex`); there
/// is an `lsm` run exactly for the `lsm` and `both` formats, and a
/// `corespotlight` run exactly for the `corespotlight` and `both` formats.
pub proof fn lemma_hiutil_jobs_files(cfg: AppleHelpConfig)
    ensures
        forall|i: int|
            0 <= i < spec_hiutil_jobs(cfg).len() ==> {
                let job = #[trigger] spec_hiutil_jobs(cfg)[i];
                let m = inserted_map(spec_info_plist_entries(cfg));
                &&& (job.0 == "lsm"@ || job.0 == "corespotlight"@)
                &&& (job.0 == "lsm"@ ==> job.1 == m["HPDBookLSIndexPath"@] && job.1 == cfg.title@ + ".helpindex"@)
                &&& (job.0 == "corespotlight"@ ==> job.1 == m["HPDBookCSIndexPath"@] && job.1 == cfg.title@
                    + ".cshelpindex"@)
            },
        (exists|i: int| 0 <= i < spec_hiutil_jobs(cfg).len() && (#[trigger] spec_hiutil_jobs(cfg)[i]).0 == "lsm"@)
            <==> (cfg.index_format is Lsm || cfg.index_format is Both),
        (exists|i: int|
            0 <= i < spec_hiutil_jobs(cfg).len() && (#[trigger] spec_hiutil_jobs(cfg)[i]).0 == "corespotlight"@)
            <==> (cfg.index_format is CoreSpotlight || cfg.index_format is Both),
{
    reveal_strlit("lsm");
    reveal_strlit("corespotlight");
    lemma_info_plist_values(cfg);
    assert("lsm"@ != "corespotlight"@) by {
        assert("lsm"@.len() != "corespotlight"@.len());
    }
    let jobs = spec_hiutil_jobs(cfg);
    match cfg.index_format {
        IndexFormat::CoreSpotlight => {
            assert(jobs[0].0 == "corespotlight"@);
        },
        IndexFormat::Lsm => {
            assert(jobs[0].0 == "lsm"@);
        },
        IndexFormat::Both => {
            assert(jobs[0].0 == "corespotlight"@);
            assert(jobs[1].0 == "lsm"@);
        },
    }
}

/// The explanation printed when the indexes cannot be built on this platform.
pub open spec fn spec_non_macos_message(lang: Seq<char>, cs: Seq<char>, ls: Seq<char>) -> Seq<char> {
    "\u{26a0}  BUILD FAILED: Search index generation requires macOS (hiutil is unavailable).\n\n"@
    + "   Apple Help search indexes cannot be generated on this platform because\n"@
    + "   `hiutil` is a macOS-exclusive tool. The .help bundle was generated\n"@
    + "   without search indexes \u{2014} Help Viewer search will not work.\n\n"@
    + "   To resolve, do ONE of the following:\n\n"@
    + "   a) Disable index generation in book.toml:\n"@
    + "        [output.applehelp]\n"@
    + "        generate-index = false\n\n"@
    + "   b) Pass --no-index to skip for this build:\n"@
    + "        mdbook build  # then run on macOS:\n"@
    + "        mdbook-applehelp --force-index  # (outside mdbook, standalone)\n\n"@
    + "   c) Generate indexes on macOS after building:\n"@
    + "        cd <build-dir>/applehelp/<HelpBundle>.help/Contents/Resources/"@ + lang + ".lproj\n"@
    + "        hiutil -I corespotlight -Cf \""@ + cs + "\" -a -s "@ + lang + " -l "@ + lang + " .\n"@
    + "        hiutil -I lsm -Cf \""@ + ls + "\" -a -s "@ + lang + " -l "@ + lang + " .\n"@
}

/// The explanation printed when `hiutil` is unavailable: what failed and
/// the three ways out, with the language and index filenames filled in.
pub fn non_macos_message(cfg: &AppleHelpConfig) -> (r: String)
    ensures
        r@ == spec_non_macos_message(cfg.language@, cfg.title@ + ".cshelpindex"@, cfg.title@ + ".helpindex"@),
{
    let lang = cfg.language.as_str();
    let cs = cfg.cshelp_index_filename();
    let ls = cfg.lsm_index_filename();
    let mut m = String::new();
    m.append("\u{26a0}  BUILD FAILED: Search index generation requires macOS (hiutil is unavailable).\n\n");
    m.append("   Apple Help search indexes cannot be generated on this platform because\n");
    m.append("   `hiutil` is a macOS-exclusive tool. The .help bundle was generated\n");
    m.append("   without search indexes \u{2014} Help Viewer search will not work.\n\n");
    m.append("   To resolve, do ONE of the following:\n\n");
    m.append("   a) Disable index generation in book.toml:\n");
    m.append("        [output.applehelp]\n");
    m.append("        generate-index = false\n\n");
    m.append("   b) Pass --no-index to skip for this build:\n");
    m.append("        mdbook build  # then run on macOS:\n");
    m.append("        mdbook-applehelp --force-index  # (outside mdbook, standalone)\n\n");
    m.append("   c) Generate indexes on macOS after building:\n");
    m.append("        cd <build-dir>/applehelp/<HelpBundle>.help/Contents/Resources/");
    m.append(lang);
    m.append(".lproj\n");
    m.append("        hiutil -I corespotlight -Cf \"");
    m.append(cs.as_str());
    m.append("\" -a -s ");
    m.append(lang);
    m.append(" -l ");
    m.append(lang);
    m.append(" .\n");
    m.append("        hiutil -I lsm -Cf \"");
    m.append(ls.as_str());
    m.append("\" -a -s ");
    m.append(lang);
    m.append(" -l ");
    m.append(lang);
    m.append(" .\n");
    m
}

} // verus!
