//! What a desktop shell needs of the system: shared libraries, and to be the
//! only instance.

use crate::env::{text_or, Env};
use crate::text::{
    glue, join_with, joined, lemma_replaced_at_first_occurrence, occurs, occurs_at, replace_all,
    replaced, texts,
};
use vstd::prelude::*;
use vstd::string::*;

verus! {

/// A shared library and the package that brings it.
pub struct Library {
    pub soname: String,
    pub package: String,
}

/// A package, and whether its library could be loaded.
pub struct Probed {
    pub package: String,
    pub loaded: bool,
}

/// How the attempt to take the lock file went.
#[derive(Clone, Copy, PartialEq, Eq, Structural, Debug)]
pub enum LockAttempt {
    /// The lock file could not be created.
    NoFile,
    /// The result of locking it, zero for success.
    Locked(i32),
}

/// The code by which Windows says that a named object exists already.
pub const ERROR_ALREADY_EXISTS: u32 = 183;

/// The packages whose library could not be loaded, in order.
pub open spec fn missing_of(probed: Seq<Probed>) -> Seq<Seq<char>>
    decreases probed.len(),
{
    if probed.len() == 0 {
        Seq::empty()
    } else if probed.last().loaded {
        missing_of(probed.drop_last())
    } else {
        missing_of(probed.drop_last()).push(probed.last().package@)
    }
}

/// One line for each package.
pub open spec fn package_lines(packages: Seq<Seq<char>>) -> Seq<char>
    decreases packages.len(),
{
    if packages.len() == 0 {
        Seq::empty()
    } else {
        package_lines(packages.drop_last()) + "  - "@ + packages.last() + "\n"@
    }
}

/// The packages by the names that Fedora gives them.
pub open spec fn fedora_names(packages: Seq<Seq<char>>) -> Seq<Seq<char>> {
    packages.map_values(|p: Seq<char>| replaced(p, "-dev"@, "-devel"@))
}

/// The text that tells which packages are missing and how to install them.
pub open spec fn report_of(packages: Seq<Seq<char>>) -> Seq<char> {
    "\x1b[1;31merror:\x1b[0m single-ion-app requires the following system libraries:\n\n"@
        + package_lines(packages) + "\nInstall them with:\n\n"@ + "  \x1b[1msudo apt install "@
        + joined(packages, " "@) + "\x1b[0m      (Debian/Ubuntu)\n"@
        + "  \x1b[1msudo dnf install "@ + joined(fedora_names(packages), " "@)
        + "\x1b[0m      (Fedora)\n\n"@
}

/// Nothing is missing exactly where every library could be loaded.
pub proof fn lemma_nothing_missing(probed: Seq<Probed>)
    ensures
        missing_of(probed).len() == 0 <==> forall|i: int|
            0 <= i < probed.len() ==> (#[trigger] probed[i]).loaded,
    decreases probed.len(),
{
    if probed.len() > 0 {
        let head = probed.drop_last();
        lemma_nothing_missing(head);
        assert forall|i: int| 0 <= i < head.len() implies head[i] == probed[i] by {}
        if missing_of(probed).len() == 0 {
            assert forall|i: int| 0 <= i < probed.len() implies (#[trigger] probed[i]).loaded by {
                if i < head.len() {
                    assert(head[i].loaded);
                }
            }
        } else if probed.last().loaded {
            let i = choose|i: int| 0 <= i < head.len() && !(#[trigger] head[i]).loaded;
            assert(!probed[i].loaded);
        } else {
            assert(!probed[probed.len() - 1].loaded);
        }
    }
}

/// The missing packages are those of the probes that were not loaded: all of
/// them, in order, and no others.
pub proof fn lemma_missing_are_those_not_loaded(probed: Seq<Probed>)
    ensures
        missing_of(probed) == probed.filter(|p: Probed| !p.loaded).map_values(
            |p: Probed| p.package@,
        ),
    decreases probed.len(),
{
    reveal(Seq::filter);
    let f = |p: Probed| !p.loaded;
    let g = |p: Probed| p.package@;
    if probed.len() > 0 {
        let init = probed.drop_last();
        lemma_missing_are_those_not_loaded(init);
        if probed.last().loaded {
            assert(probed.filter(f) =~= init.filter(f));
        } else {
            assert(probed.filter(f) =~= init.filter(f).push(probed.last()));
            assert(init.filter(f).push(probed.last()).map_values(g) =~= init.filter(f).map_values(
                g,
            ).push(probed.last().package@));
        }
    } else {
        assert(probed.filter(f).map_values(g) =~= Seq::empty());
    }
}

/// What is missing of two lists of probes is what is missing of each; of one
/// probe it is its package, unless the library was loaded.
pub proof fn lemma_missing_concat(a: Seq<Probed>, b: Seq<Probed>, p: Probed)
    ensures
        missing_of(a + b) == missing_of(a) + missing_of(b),
        p.loaded ==> missing_of(seq![p]) == Seq::<Seq<char>>::empty(),
        !p.loaded ==> missing_of(seq![p]) == seq![p.package@],
    decreases b.len(),
{
    reveal_with_fuel(missing_of, 2);
    assert(seq![p].drop_last() =~= Seq::empty());
    assert(Seq::<Seq<char>>::empty().push(p.package@) =~= seq![p.package@]);
    if b.len() == 0 {
        assert(a + b =~= a);
        assert(missing_of(a) + missing_of(b) =~= missing_of(a));
    } else {
        assert((a + b).drop_last() =~= a + b.drop_last());
        lemma_missing_concat(a, b.drop_last(), p);
        assert(missing_of(a + b) =~= missing_of(a) + missing_of(b));
    }
}

/// A library that was not loaded is always told.
pub proof fn lemma_every_missing_package_is_told(probed: Seq<Probed>, i: int)
    requires
        0 <= i < probed.len(),
        !probed[i].loaded,
    ensures
        missing_of(probed).contains(probed[i].package@),
    decreases probed.len(),
{
    let init = probed.drop_last();
    let all = missing_of(probed);
    if i < init.len() {
        assert(init[i] == probed[i]);
        lemma_every_missing_package_is_told(init, i);
        let k = choose|k: int|
            0 <= k < missing_of(init).len() && missing_of(init)[k] == probed[i].package@;
        assert(all[k] == probed[i].package@);
    } else {
        assert(all[all.len() - 1] == probed[i].package@);
    }
}

/// The packages of two lists are told one after the other, each on a line of its
/// own.
pub proof fn lemma_package_lines_concat(a: Seq<Seq<char>>, b: Seq<Seq<char>>, p: Seq<char>)
    ensures
        package_lines(a + b) == package_lines(a) + package_lines(b),
        package_lines(seq![p]) == "  - "@ + p + "\n"@,
    decreases b.len(),
{
    reveal_with_fuel(package_lines, 2);
    assert(seq![p].drop_last() =~= Seq::empty());
    assert(package_lines(seq![p]) =~= "  - "@ + p + "\n"@);
    if b.len() == 0 {
        assert(a + b =~= a);
        assert(package_lines(a) + package_lines(b) =~= package_lines(a));
    } else {
        assert((a + b).drop_last() =~= a + b.drop_last());
        lemma_package_lines_concat(a, b.drop_last(), p);
        assert(package_lines(a + b) =~= package_lines(a) + package_lines(b));
    }
}

/// Every package has its name on Fedora, with `-devel` for `-dev`.
pub proof fn lemma_fedora_names(packages: Seq<Seq<char>>, i: int)
    ensures
        fedora_names(packages).len() == packages.len(),
        0 <= i < packages.len() ==> fedora_names(packages)[i] == replaced(
            packages[i],
            "-dev"@,
            "-devel"@,
        ),
{
}

/// A package whose name ends in `-dev`, and holds no other, ends in `-devel` on
/// Fedora.
pub proof fn lemma_fedora_name_of_a_dev_package(base: Seq<char>)
    requires
        !occurs(base, "-dev"@),
    ensures
        fedora_names(seq![base + "-dev"@]) == seq![base + "-devel"@],
{
    reveal_strlit("-dev");
    let pat = "-dev"@;
    let none = Seq::<char>::empty();
    let s = base + pat + none;
    assert(s =~= base + pat);
    assert forall|i: int| 0 <= i < base.len() implies !#[trigger] occurs_at(s, pat, i) by {
        if occurs_at(s, pat, i) {
            let window = s.subrange(i, i + pat.len());
            if i + pat.len() <= base.len() {
                assert(base.subrange(i, i + pat.len()) =~= window);
                assert(occurs_at(base, pat, i));
            } else {
                let k = base.len() - i;
                assert(window[k] == s[base.len() as int]);
                assert(s[base.len() as int] == pat[0]);
            }
        }
    }
    lemma_replaced_at_first_occurrence(base, pat, none, "-devel"@);
    assert(base + "-devel"@ + none =~= base + "-devel"@);
    assert(fedora_names(seq![base + pat]) =~= seq![base + "-devel"@]);
}

/// The report names every package on a line of its own, and again in the
/// commands that install them, for Debian and for Fedora.
pub proof fn lemma_report(packages: Seq<Seq<char>>)
    ensures
        report_of(packages)
            == "\x1b[1;31merror:\x1b[0m single-ion-app requires the following system libraries:\n\n"@
            + package_lines(packages) + "\nInstall them with:\n\n"@ + "  \x1b[1msudo apt install "@
            + joined(packages, " "@) + "\x1b[0m      (Debian/Ubuntu)\n"@
            + "  \x1b[1msudo dnf install "@ + joined(fedora_names(packages), " "@)
            + "\x1b[0m      (Fedora)\n\n"@,
{
}

/// The libraries that the window needs on Linux.
pub fn required_libraries() -> (r: Vec<Library>)
    ensures
        r@.len() == 2,
        r@[0].soname@ == "libgtk-3.so.0"@,
        r@[0].package@ == "libgtk-3-dev"@,
        r@[1].soname@ == "libwebkit2gtk-4.1.so.0"@,
        r@[1].package@ == "libwebkit2gtk-4.1-dev"@,
{
    vec![
        Library { soname: "libgtk-3.so.0".to_owned(), package: "libgtk-3-dev".to_owned() },
        Library {
            soname: "libwebkit2gtk-4.1.so.0".to_owned(),
            package: "libwebkit2gtk-4.1-dev".to_owned(),
        },
    ]
}

/// The packages whose library could not be loaded, in order.
pub fn check_linux_dependencies(probed: &Vec<Probed>) -> (r: Vec<String>)
    ensures
        texts(r@) == missing_of(probed@),
{
    let mut r: Vec<String> = Vec::new();
    let mut i: usize = 0;
    assert(texts(r@) =~= missing_of(probed@.take(0)));
    while i < probed.len()
        invariant
            i <= probed@.len(),
            texts(r@) == missing_of(probed@.take(i as int)),
        decreases probed@.len() - i,
    {
        assert(probed@.take(i + 1).drop_last() =~= probed@.take(i as int));
        if !probed[i].loaded {
            let ghost before = texts(r@);
            r.push(probed[i].package.clone());
            assert(texts(r@) =~= before.push(probed@[i as int].package@));
        }
        i = i + 1;
    }
    assert(probed@.take(i as int) =~= probed@);
    r
}

/// The text that tells which packages are missing and how to install them.
pub fn dependency_report(packages: &Vec<String>) -> (r: String)
    ensures
        r@ == report_of(texts(packages@)),
{
    let ghost all = texts(packages@);
    let mut lines = String::new();
    let mut fedora: Vec<String> = Vec::new();
    let mut i: usize = 0;
    assert(texts(fedora@) =~= fedora_names(all.take(0)));
    proof {
        reveal_strlit("-dev");
    }
    while i < packages.len()
        invariant
            i <= packages@.len(),
            all == texts(packages@),
            "-dev"@.len() > 0,
            lines@ == package_lines(all.take(i as int)),
            texts(fedora@) == fedora_names(all.take(i as int)),
        decreases packages@.len() - i,
    {
        assert(all.take(i + 1).drop_last() =~= all.take(i as int));
        assert(all.take(i + 1).last() == packages@[i as int]@);
        lines.append("  - ");
        lines.append(packages[i].as_str());
        lines.append("\n");
        let ghost before = texts(fedora@);
        fedora.push(replace_all(packages[i].as_str(), "-dev", "-devel"));
        assert(texts(fedora@) =~= before.push(
            replaced(packages@[i as int]@, "-dev"@, "-devel"@),
        ));
        assert(fedora_names(all.take(i + 1)) =~= fedora_names(all.take(i as int)).push(
            replaced(packages@[i as int]@, "-dev"@, "-devel"@),
        ));
        i = i + 1;
    }
    assert(all.take(i as int) =~= all);
    let head = glue(
        "\x1b[1;31merror:\x1b[0m single-ion-app requires the following system libraries:\n\n",
        lines.as_str(),
    );
    head.concat("\nInstall them with:\n\n").concat("  \x1b[1msudo apt install ").concat(
        join_with(packages, " ").as_str(),
    ).concat("\x1b[0m      (Debian/Ubuntu)\n").concat("  \x1b[1msudo dnf install ").concat(
        join_with(&fedora, " ").as_str(),
    ).concat("\x1b[0m      (Fedora)\n\n")
}

/// The lock file: in the user's runtime directory, or in `/tmp`.
pub fn lock_path(env: &Env) -> (r: String)
    ensures
        r@ == text_or(env@, "XDG_RUNTIME_DIR"@, "/tmp"@) + "/single-ion.lock"@,
{
    env.text_or("XDG_RUNTIME_DIR", "/tmp").concat("/single-ion.lock")
}

/// Whether this is the only instance. A lock file that cannot be created does
/// not keep the shell from starting.
pub fn acquire_single_instance(attempt: LockAttempt) -> (r: bool)
    ensures
        r == (attempt == LockAttempt::NoFile || attempt == LockAttempt::Locked(0)),
{
    match attempt {
        LockAttempt::NoFile => true,
        LockAttempt::Locked(rc) => rc == 0,
    }
}

/// The name of the mutex by which instances find each other on Windows.
pub open spec fn mutex_text() -> Seq<char> {
    "Global\\single-ion"@
}

/// The name of the mutex, in the wide characters of Windows and ended by a
/// zero.
pub fn mutex_name() -> (r: Vec<u16>)
    ensures
        r@ == Seq::new(mutex_text().len(), |i: int| mutex_text()[i] as u16).push(0u16),
        mutex_text() == "Global\\single-ion"@,
{
    let name = "Global\\single-ion";
    proof {
        reveal_strlit("Global\\single-ion");
    }
    let n: usize = name.unicode_len();
    let mut r: Vec<u16> = Vec::new();
    let mut i: usize = 0;
    while i < n
        invariant
            name@ == mutex_text(),
            n == name@.len(),
            name.is_ascii(),
            i <= n,
            r@ == Seq::new(i as nat, |j: int| mutex_text()[j] as u16),
        decreases n - i,
    {
        let b: u8 = name.get_ascii(i);
        let ghost before = r@;
        r.push(b as u16);
        i = i + 1;
        assert(r@ =~= Seq::new(i as nat, |j: int| mutex_text()[j] as u16));
    }
    r.push(0);
    assert(r@ =~= Seq::new(mutex_text().len(), |i: int| mutex_text()[i] as u16).push(0u16));
    r
}

/// Whether this is the only instance, by the error that creating the mutex
/// left.
pub fn mutex_is_ours(last_error: u32) -> (r: bool)
    ensures
        r == (last_error != 183),
        r == (last_error != ERROR_ALREADY_EXISTS),
{
    last_error != ERROR_ALREADY_EXISTS
}

} // verus!
