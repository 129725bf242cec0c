//! Where the neural recognition engine's files are looked for: the folders
//! searched, in order of preference, and the paths tried in each. Which of
//! them exist is for the caller to find out, taking the first that does.

use crate::permission::{path_parent, path_parent_of};
use crate::platform::Platform;
use vstd::prelude::*;

verus! {

/// What `std::path::Path::join` gives for a base path and a part, as text.
/// Path syntax is that of the target the library is built for, fixed for a
/// given build.
pub uninterp spec fn path_join_of(base: Seq<char>, part: Seq<char>) -> Seq<char>;

/// `Path::join`, as text.
#[verifier::external_body]
fn path_join(base: &str, part: &str) -> (r: String)
    ensures
        r@ == path_join_of(base@, part@),
{
    std::path::Path::new(base).join(part).display().to_string()
}

pub open spec fn opt_string(o: Option<String>) -> Option<Seq<char>> {
    match o {
        Some(s) => Some(s@),
        None => None,
    }
}

pub open spec fn opt_path(o: Option<&str>) -> Option<Seq<char>> {
    match o {
        Some(s) => Some(s@),
        None => None,
    }
}

/// The user-writable folder for a downloaded runtime library: on Windows
/// under `%LOCALAPPDATA%`, on macOS under `~/Library/Caches`, elsewhere
/// under `~/.cache`; `None` when the variable it needs is missing.
pub open spec fn spec_user_ort_dir(p: Platform, local_app_data: Option<Seq<char>>, home: Option<Seq<char>>) -> Option<
    Seq<char>,
> {
    if p == Platform::Windows {
        match local_app_data {
            Some(l) => Some(path_join_of(path_join_of(l, "ScreenTime Pro"@), "ort"@)),
            None => None,
        }
    } else {
        match home {
            Some(h) => if p == Platform::MacOS {
                Some(
                    path_join_of(
                        path_join_of(path_join_of(path_join_of(h, "Library"@), "Caches"@), "com.screentime.pro"@),
                        "ort"@,
                    ),
                )
            } else {
                Some(path_join_of(path_join_of(path_join_of(h, ".cache"@), "screentime-pro"@), "ort"@))
            },
            None => None,
        }
    }
}

/// Where the downloaded runtime library lives: on Windows in `ort` inside
/// the app's own folder `ScreenTime Pro` of `%LOCALAPPDATA%`, whatever
/// `HOME` says; on macOS in `ort` inside `com.screentime.pro` of
/// `~/Library/Caches`; on Linux in `ort` inside `screentime-pro` of
/// `~/.cache`, whatever `LOCALAPPDATA` says; nowhere when the variable
/// that the platform needs is missing.
pub proof fn law_user_ort_dir_layout(local_app_data: Option<Seq<char>>, home: Option<Seq<char>>)
    ensures
        local_app_data matches Some(l) ==> spec_user_ort_dir(Platform::Windows, local_app_data, home) == Some(
            path_join_of(path_join_of(l, "ScreenTime Pro"@), "ort"@),
        ),
        local_app_data is None ==> spec_user_ort_dir(Platform::Windows, local_app_data, home) is None,
        home matches Some(h) ==> spec_user_ort_dir(Platform::MacOS, local_app_data, home) == Some(
            path_join_of(
                path_join_of(path_join_of(path_join_of(h, "Library"@), "Caches"@), "com.screentime.pro"@),
                "ort"@,
            ),
        ),
        home matches Some(h) ==> spec_user_ort_dir(Platform::Linux, local_app_data, home) == Some(
            path_join_of(path_join_of(path_join_of(h, ".cache"@), "screentime-pro"@), "ort"@),
        ),
        home is None ==> spec_user_ort_dir(Platform::MacOS, local_app_data, home) is None
            && spec_user_ort_dir(Platform::Linux, local_app_data, home) is None,
        spec_user_ort_dir(Platform::Windows, local_app_data, home) == spec_user_ort_dir(
            Platform::Windows,
            local_app_data,
            None,
        ),
        spec_user_ort_dir(Platform::MacOS, local_app_data, home) == spec_user_ort_dir(
            Platform::MacOS,
            None,
            home,
        ),
{
}

/// The user folder for the runtime library (see [`spec_user_ort_dir`]),
/// from the values of `LOCALAPPDATA` and `HOME`.
pub fn user_ort_dir(p: Platform, local_app_data: Option<&str>, home: Option<&str>) -> (r: Option<String>)
    ensures
        opt_string(r) == spec_user_ort_dir(p, opt_path(local_app_data), opt_path(home)),
{
    match p {
        Platform::Windows => match local_app_data {
            Some(l) => {
                let a = path_join(l, "ScreenTime Pro");
                Some(path_join(a.as_str(), "ort"))
            },
            None => None,
        },
        _ => match home {
            Some(h) => match p {
                Platform::MacOS => {
                    let a = path_join(h, "Library");
                    let b = path_join(a.as_str(), "Caches");
                    let c = path_join(b.as_str(), "com.screentime.pro");
                    Some(path_join(c.as_str(), "ort"))
                },
                _ => {
                    let a = path_join(h, ".cache");
                    let b = path_join(a.as_str(), "screentime-pro");
                    Some(path_join(b.as_str(), "ort"))
                },
            },
            None => None,
        },
    }
}

/// The folders searched, in order: the executable's folder and its
/// `resources`, the resource folder and its `resources`, the source tree,
/// then the user folder and the folder above it.
pub open spec fn spec_candidate_roots(
    exe: Option<Seq<char>>,
    resource_dir: Option<Seq<char>>,
    manifest_dir: Seq<char>,
    user_dir: Option<Seq<char>>,
) -> Seq<Seq<char>> {
    let a = match exe {
        Some(e) => match path_parent_of(e) {
            Some(d) => seq![d, path_join_of(d, "resources"@)],
            None => Seq::empty(),
        },
        None => Seq::empty(),
    };
    let b = match resource_dir {
        Some(d) => seq![d, path_join_of(d, "resources"@)],
        None => Seq::empty(),
    };
    let u = match user_dir {
        Some(d) => match path_parent_of(d) {
            Some(q) => seq![d, q],
            None => seq![d],
        },
        None => Seq::empty(),
    };
    a + b + seq![manifest_dir] + u
}

pub open spec fn texts(v: Seq<String>) -> Seq<Seq<char>> {
    v.map_values(|s: String| s@)
}

/// The folders to search (see [`spec_candidate_roots`]), from the running
/// executable's path, the resource folder, the source tree and the user
/// folder.
pub fn candidate_roots(exe: Option<&str>, resource_dir: Option<&str>, manifest_dir: &str, user_dir: Option<&str>) -> (r:
    Vec<String>)
    ensures
        texts(r@) == spec_candidate_roots(opt_path(exe), opt_path(resource_dir), manifest_dir@, opt_path(user_dir)),
{
    let mut roots: Vec<String> = Vec::new();
    if let Some(e) = exe {
        if let Some(d) = path_parent(e) {
            let res = path_join(d.as_str(), "resources");
            roots.push(d);
            roots.push(res);
        }
    }
    let ghost a = texts(roots@);
    if let Some(d) = resource_dir {
        roots.push(d.to_owned());
        roots.push(path_join(d, "resources"));
    }
    let ghost ab = texts(roots@);
    roots.push(manifest_dir.to_owned());
    let ghost abc = texts(roots@);
    if let Some(d) = user_dir {
        let up = path_parent(d);
        roots.push(d.to_owned());
        if let Some(q) = up {
            roots.push(q);
        }
    }
    assert(texts(roots@) =~= spec_candidate_roots(
        opt_path(exe),
        opt_path(resource_dir),
        manifest_dir@,
        opt_path(user_dir),
    ));
    roots
}

/// The runtime-library paths to try, in order: the path given in the
/// environment, then in each folder `ort/<name>` and `<name>`.
pub open spec fn spec_ort_lib_candidates(env: Option<Seq<char>>, roots: Seq<Seq<char>>, name: Seq<char>) -> Seq<
    Seq<char>,
>
    decreases roots.len(),
{
    if roots.len() == 0 {
        match env {
            Some(e) => seq![e],
            None => Seq::empty(),
        }
    } else {
        let r = roots.last();
        spec_ort_lib_candidates(env, roots.drop_last(), name) + seq![
            path_join_of(path_join_of(r, "ort"@), name),
            path_join_of(r, name),
        ]
    }
}

/// The folders are searched in this order: the executable's folder, its
/// `resources`, the resource folder, its `resources`, the source tree,
/// the user folder and the folder above that one; a folder whose source
/// is missing is left out and the others keep their order.
pub proof fn law_candidate_root_order(
    exe: Seq<char>,
    exe_dir: Seq<char>,
    resource_dir: Seq<char>,
    manifest_dir: Seq<char>,
    user_dir: Seq<char>,
    user_parent: Seq<char>,
)
    requires
        path_parent_of(exe) == Some(exe_dir),
        path_parent_of(user_dir) == Some(user_parent),
    ensures
        spec_candidate_roots(Some(exe), Some(resource_dir), manifest_dir, Some(user_dir)) == seq![
            exe_dir,
            path_join_of(exe_dir, "resources"@),
            resource_dir,
            path_join_of(resource_dir, "resources"@),
            manifest_dir,
            user_dir,
            user_parent,
        ],
        spec_candidate_roots(None, None, manifest_dir, None) == seq![manifest_dir],
        spec_candidate_roots(None, Some(resource_dir), manifest_dir, Some(user_dir)) == seq![
            resource_dir,
            path_join_of(resource_dir, "resources"@),
            manifest_dir,
            user_dir,
            user_parent,
        ],
        spec_candidate_roots(Some(exe), None, manifest_dir, None) == seq![
            exe_dir,
            path_join_of(exe_dir, "resources"@),
            manifest_dir,
        ],
{
    assert(spec_candidate_roots(Some(exe), Some(resource_dir), manifest_dir, Some(user_dir)) =~= seq![
        exe_dir,
        path_join_of(exe_dir, "resources"@),
        resource_dir,
        path_join_of(resource_dir, "resources"@),
        manifest_dir,
        user_dir,
        user_parent,
    ]);
    assert(spec_candidate_roots(None, None, manifest_dir, None) =~= seq![manifest_dir]);
    assert(spec_candidate_roots(None, Some(resource_dir), manifest_dir, Some(user_dir)) =~= seq![
        resource_dir,
        path_join_of(resource_dir, "resources"@),
        manifest_dir,
        user_dir,
        user_parent,
    ]);
    assert(spec_candidate_roots(Some(exe), None, manifest_dir, None) =~= seq![
        exe_dir,
        path_join_of(exe_dir, "resources"@),
        manifest_dir,
    ]);
}

/// The runtime-library paths come in this order: the path from the
/// environment (when set) first, then for each folder, in the folders'
/// order, `ort/<name>` inside it before `<name>` directly in it.
pub proof fn law_ort_lib_order(env: Option<Seq<char>>, roots: Seq<Seq<char>>, name: Seq<char>)
    ensures
        ({
            let c = spec_ort_lib_candidates(env, roots, name);
            let off: int = if env is Some { 1 } else { 0 };
            &&& c.len() == off + 2 * roots.len()
            &&& env matches Some(e) ==> c[0] == e
            &&& forall|i: int|
                0 <= i < roots.len() ==> c[off + 2 * i] == path_join_of(path_join_of(#[trigger] roots[i], "ort"@), name)
                    && c[off + 2 * i + 1] == path_join_of(roots[i], name)
        }),
    decreases roots.len(),
{
    if roots.len() > 0 {
        let rs = roots.drop_last();
        law_ort_lib_order(env, rs, name);
        let c = spec_ort_lib_candidates(env, roots, name);
        let c0 = spec_ort_lib_candidates(env, rs, name);
        let off: int = if env is Some { 1 } else { 0 };
        assert forall|i: int| 0 <= i < roots.len() implies c[off + 2 * i] == path_join_of(
            path_join_of(#[trigger] roots[i], "ort"@),
            name,
        ) && c[off + 2 * i + 1] == path_join_of(roots[i], name) by {
            if i < rs.len() {
                assert(rs[i] == roots[i]);
                assert(c[off + 2 * i] == c0[off + 2 * i]);
                assert(c[off + 2 * i + 1] == c0[off + 2 * i + 1]);
            }
        }
    }
}

/// The runtime-library paths to try (see [`spec_ort_lib_candidates`]),
/// from the value of `ORT_DYLIB_PATH`, the folders and the library's file
/// name.
pub fn ort_lib_candidates(env: Option<&str>, roots: &Vec<String>, name: &str) -> (r: Vec<String>)
    ensures
        texts(r@) == spec_ort_lib_candidates(opt_path(env), texts(roots@), name@),
{
    let mut out: Vec<String> = Vec::new();
    if let Some(e) = env {
        out.push(e.to_owned());
    }
    let mut i: usize = 0;
    assert(texts(roots@).subrange(0, 0) =~= Seq::<Seq<char>>::empty());
    assert(texts(out@) =~= spec_ort_lib_candidates(opt_path(env), Seq::empty(), name@));
    while i < roots.len()
        invariant
            i <= roots@.len(),
            texts(out@) == spec_ort_lib_candidates(opt_path(env), texts(roots@).subrange(0, i as int), name@),
        decreases roots.len() - i,
    {
        let ghost before = texts(out@);
        let sub = path_join(roots[i].as_str(), "ort");
        out.push(path_join(sub.as_str(), name));
        out.push(path_join(roots[i].as_str(), name));
        let ghost pre = texts(roots@).subrange(0, i + 1);
        assert(pre.drop_last() =~= texts(roots@).subrange(0, i as int));
        assert(pre.last() == roots@[i as int]@);
        assert(texts(out@) =~= before + seq![
            path_join_of(path_join_of(roots@[i as int]@, "ort"@), name@),
            path_join_of(roots@[i as int]@, name@),
        ]);
        i = i + 1;
    }
    assert(texts(roots@).subrange(0, roots@.len() as int) =~= texts(roots@));
    out
}

/// The model folders to try, in order: the folder given in the
/// environment when it is not empty, then `models` in each folder.
pub open spec fn spec_models_candidates(env: Option<Seq<char>>, roots: Seq<Seq<char>>) -> Seq<Seq<char>>
    decreases roots.len(),
{
    if roots.len() == 0 {
        match env {
            Some(e) => if e.len() > 0 {
                seq![e]
            } else {
                Seq::empty()
            },
            None => Seq::empty(),
        }
    } else {
        spec_models_candidates(env, roots.drop_last()) + seq![path_join_of(roots.last(), "models"@)]
    }
}

/// The model folders to try (see [`spec_models_candidates`]), from the
/// value of `SD_OCR_MODELS` and the folders.
pub fn models_candidates(env: Option<&str>, roots: &Vec<String>) -> (r: Vec<String>)
    ensures
        texts(r@) == spec_models_candidates(opt_path(env), texts(roots@)),
{
    let mut out: Vec<String> = Vec::new();
    if let Some(e) = env {
        if !e.is_empty() {
            out.push(e.to_owned());
        }
    }
    let mut i: usize = 0;
    assert(texts(roots@).subrange(0, 0) =~= Seq::<Seq<char>>::empty());
    assert(texts(out@) =~= spec_models_candidates(opt_path(env), Seq::empty()));
    while i < roots.len()
        invariant
            i <= roots@.len(),
            texts(out@) == spec_models_candidates(opt_path(env), texts(roots@).subrange(0, i as int)),
        decreases roots.len() - i,
    {
        let ghost before = texts(out@);
        out.push(path_join(roots[i].as_str(), "models"));
        let ghost pre = texts(roots@).subrange(0, i + 1);
        assert(pre.drop_last() =~= texts(roots@).subrange(0, i as int));
        assert(pre.last() == roots@[i as int]@);
        assert(texts(out@) =~= before + seq![path_join_of(roots@[i as int]@, "models"@)]);
        i = i + 1;
    }
    assert(texts(roots@).subrange(0, roots@.len() as int) =~= texts(roots@));
    out
}

} // verus!
