//! The operation handlers: initialize a library project or an application
//! project under a workspace root. Each is a short linear sequence with one
//! branch point, acting on the modeled filesystem state; the surrounding
//! shell performs the real reads, writes and the git call and hands their
//! outcomes in.

use vstd::prelude::*;

use crate::dependency::{spec_parse_dep, Dependency};
use crate::error::Error;
use crate::metadata::{
    clean, doc_of, spec_add_script, template_meta, wf, MetadataG,
};
use crate::name::{
    default_entrypoint_string, importable_package_name, last_path_component, spec_entrypoint,
    spec_importable_name, spec_last_component,
};
use crate::text::{lemma_scan_from, scan_from};
use crate::workspace::{
    has_project, init_git, metadata_path, pyproject_view, Config, FileSystem, GitHook,
    LocalMetadata, WorkspaceOptions,
};

verus! {

/// When a library init succeeds: no parseable project description exists, the
/// git hook (when requested) works, and the root has a final path component.
pub open spec fn lib_init_ok(options: WorkspaceOptions, fs: FileSystem, root: Seq<char>) -> bool {
    &&& !has_project(fs)
    &&& options.uses_git ==> fs.git is Works
    &&& spec_last_component(root) is Some
}

/// The metadata a library init writes: the template, named after the root's
/// final component.
pub open spec fn lib_metadata(root: Seq<char>) -> MetadataG {
    MetadataG { name: spec_last_component(root).unwrap(), ..template_meta() }
}

/// When an application init succeeds: a library init succeeds, and the
/// project name is a clean, syntactically valid dependency specifier.
pub open spec fn app_init_ok(options: WorkspaceOptions, fs: FileSystem, root: Seq<char>) -> bool {
    &&& lib_init_ok(options, fs, root)
    &&& clean(spec_last_component(root).unwrap())
    &&& spec_parse_dep(spec_last_component(root).unwrap()) is Some
}

/// The metadata an application init writes: the library metadata plus exactly
/// one script, mapping the dependency name of the project to the default
/// entry point of its importable form. Dependencies stay empty.
pub open spec fn app_metadata(root: Seq<char>) -> MetadataG {
    let name = spec_last_component(root).unwrap();
    let dep = spec_parse_dep(name).unwrap();
    let entry = spec_entrypoint(spec_importable_name(dep.name).unwrap());
    MetadataG { name, scripts: seq![(dep.name, entry)], ..template_meta() }
}

/// The name of a parsed dependency always has an importable form: it begins
/// with a letter and holds name characters only.
proof fn lemma_dep_name_importable(s: Seq<char>)
    requires
        spec_parse_dep(s) is Some,
    ensures
        spec_importable_name(spec_parse_dep(s).unwrap().name) is Some,
{
    let d = spec_parse_dep(s).unwrap();
    let n = scan_from(s, 1, crate::dependency::name_charp());
    lemma_scan_from(s, 1, crate::dependency::name_charp());
    assert(d.name == s.subrange(0, n));
    assert(d.name.len() > 0);
    assert(crate::dependency::is_alpha(d.name[0]));
    assert(forall|k: int|
        0 <= k < d.name.len() ==> crate::dependency::is_name_char(#[trigger] d.name[k]));
}

/// The library-init metadata is well formed whenever the root's final
/// component holds no quote and no newline.
proof fn lemma_lib_metadata_wf(root: Seq<char>)
    requires
        spec_last_component(root) is Some,
        clean(spec_last_component(root).unwrap()),
    ensures
        wf(lib_metadata(root)),
{
    reveal_strlit("0.0.1");
    assert(clean("0.0.1"@));
}

/// Initialize a library project: create the project description from the
/// template, named after the root's final path component, after optionally
/// initializing a git repository. An existing (parseable) description is
/// never overwritten; git is attempted before any write, so a failing hook
/// leaves no partial file.
pub fn init_lib_project(config: &Config, options: &WorkspaceOptions, fs: &mut FileSystem) -> (r:
    Result<(), Error>)
    ensures
        final(fs).git == old(fs).git,
        r is Ok <==> lib_init_ok(*options, *old(fs), config.workspace_root@),
        r is Ok ==> pyproject_view(*final(fs)) == Some(
            doc_of(lib_metadata(config.workspace_root@)),
        ),
        r is Err ==> final(fs).pyproject == old(fs).pyproject,
        has_project(*old(fs)) ==> r == Err::<(), Error>(Error::MetadataFileFound) && *final(fs)
            == *old(fs),
        final(fs).git_initialized == (old(fs).git_initialized || (!has_project(*old(fs))
            && options.uses_git && old(fs).git is Works)),
        !has_project(*old(fs)) && options.uses_git && old(fs).git is Fails ==> (r matches Err(e)
            && e is GitError),
        !has_project(*old(fs)) && (options.uses_git ==> old(fs).git is Works)
            && spec_last_component(config.workspace_root@) is None ==> (r matches Err(e)
            && e is InternalError),
{
    let workspace = config.workspace();

    // Create a metadata file or error if one already exists.
    let mut metadata = match workspace.current_local_metadata(fs) {
        Ok(_) => {
            return Err(Error::MetadataFileFound);
        },
        Err(_) => LocalMetadata::template(metadata_path(workspace.root().as_str())),
    };
    if options.uses_git {
        match init_git(fs) {
            Ok(_) => {},
            Err(e) => {
                return Err(e);
            },
        }
    }
    let name = match last_path_component(config.workspace_root.as_str()) {
        Ok(n) => n,
        Err(e) => {
            return Err(e);
        },
    };
    metadata.metadata.set_project_name(name);
    proof {
        assert(metadata.metadata@ =~= lib_metadata(config.workspace_root@));
    }
    metadata.write_file(fs)
}

/// Initialize an application project: run the library init, re-load the
/// written description, derive a dependency from the now-set project name,
/// and add the one default script. A failure after the library init leaves
/// the library description in place (no rollback).
pub fn init_app_project(config: &Config, options: &WorkspaceOptions, fs: &mut FileSystem) -> (r:
    Result<(), Error>)
    ensures
        final(fs).git == old(fs).git,
        has_project(*old(fs)) ==> r == Err::<(), Error>(Error::MetadataFileFound) && *final(fs)
            == *old(fs),
        !lib_init_ok(*options, *old(fs), config.workspace_root@) ==> r is Err
            && final(fs).pyproject == old(fs).pyproject,
        app_init_ok(*options, *old(fs), config.workspace_root@) ==> r is Ok
            && pyproject_view(*final(fs)) == Some(doc_of(app_metadata(config.workspace_root@))),
        r is Ok ==> lib_init_ok(*options, *old(fs), config.workspace_root@),
        lib_init_ok(*options, *old(fs), config.workspace_root@) && r is Err
            ==> pyproject_view(*final(fs)) == Some(doc_of(lib_metadata(config.workspace_root@))),
        final(fs).git_initialized == (old(fs).git_initialized || (!has_project(*old(fs))
            && options.uses_git && old(fs).git is Works)),
{
    match init_lib_project(config, options, fs) {
        Ok(_) => {},
        Err(e) => {
            return Err(e);
        },
    }
    let ghost root = config.workspace_root@;
    proof {
        if app_init_ok(*options, *old(fs), root) {
            lemma_lib_metadata_wf(root);
            crate::metadata::lemma_serialize_parse_round_trip(lib_metadata(root));
        }
    }
    let workspace = config.workspace();
    let mut metadata = match workspace.current_local_metadata(fs) {
        Ok(lm) => lm,
        Err(e) => {
            return Err(e);
        },
    };
    let as_dep = match Dependency::from_str(metadata.metadata.project_name().as_str()) {
        Ok(d) => d,
        Err(e) => {
            return Err(e);
        },
    };
    proof {
        if app_init_ok(*options, *old(fs), root) {
            lemma_dep_name_importable(metadata.metadata@.name);
        }
    }
    let importable = match importable_package_name(as_dep.name().as_str()) {
        Ok(p) => p,
        Err(e) => {
            return Err(e);
        },
    };
    let entry_point = default_entrypoint_string(importable.as_str());
    metadata.metadata.add_script(as_dep.name().as_str(), entry_point.as_str());
    proof {
        if app_init_ok(*options, *old(fs), root) {
            assert(spec_add_script(lib_metadata(root).scripts, as_dep@.name, entry_point@)
                =~= seq![(as_dep@.name, entry_point@)]);
            assert(metadata.metadata@ =~= app_metadata(root));
        }
    }
    metadata.write_file(fs)
}

/// The existence guard: after a successful library init the workspace holds
/// a parseable project description, so by the contract of
/// `init_lib_project` a second call on the same root returns the
/// project-already-exists error and leaves the whole state, file included,
/// untouched.
pub proof fn lemma_existence_guard(options: WorkspaceOptions, fs: FileSystem, root: Seq<char>)
    requires
        pyproject_view(fs) == Some(doc_of(lib_metadata(root))),
        spec_last_component(root) is Some,
        clean(spec_last_component(root).unwrap()),
    ensures
        has_project(fs),
        !lib_init_ok(options, fs, root),
{
    lemma_lib_metadata_wf(root);
    crate::metadata::lemma_serialize_parse_round_trip(lib_metadata(root));
}

} // verus!
