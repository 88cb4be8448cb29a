//! Paths as the guest names them, relative to the directory that stands
//! for the SD card, and how a path that the guest gives is joined to the
//! working directory.

use vstd::prelude::*;
use vstd::slice::slice_to_vec;

verus! {

/// The names that a vector of byte vectors holds.
pub open spec fn views(names: Seq<Vec<u8>>) -> Seq<Seq<u8>> {
    Seq::new(names.len(), |i: int| names[i]@)
}

/// The byte separates the fragments of a path: a slash or a backslash.
pub open spec fn is_separator(b: u8) -> bool {
    b == 0x2f || b == 0x5c
}

/// The byte with an ASCII capital letter made small.
pub open spec fn lower(b: u8) -> u8 {
    if 0x41 <= b <= 0x5a {
        (b + 0x20) as u8
    } else {
        b
    }
}

/// Two names are the same but for the case of ASCII letters.
pub open spec fn same_ignoring_case(a: Seq<u8>, b: Seq<u8>) -> bool {
    a.len() == b.len() && forall|i: int| 0 <= i < a.len() ==> lower(a[i]) == lower(b[i])
}

/// The place of the first name from `from` on that is `fragment` but for
/// case.
pub open spec fn first_match(fragment: Seq<u8>, listing: Seq<Seq<u8>>, from: int) -> Option<int>
    decreases listing.len() - from,
{
    if from < 0 || from >= listing.len() {
        None
    } else if same_ignoring_case(listing[from], fragment) {
        Some(from)
    } else {
        first_match(fragment, listing, from + 1)
    }
}

/// The name that a fragment stands for in a directory with the given
/// entries: the fragment itself where an entry has exactly that name, else
/// the first entry that has it but for case, else the fragment as it is.
pub open spec fn matched(fragment: Seq<u8>, listing: Seq<Seq<u8>>) -> Seq<u8> {
    if listing.contains(fragment) {
        fragment
    } else {
        match first_match(fragment, listing, 0) {
            Some(i) => listing[i],
            None => fragment,
        }
    }
}

/// The fragments of a path: what stands between its separators. A path
/// of `n` separators has `n + 1` fragments, some of which may be empty.
pub open spec fn fragments_of(path: Seq<u8>) -> Seq<Seq<u8>>
    decreases path.len(),
{
    if path.len() == 0 {
        seq![Seq::<u8>::empty()]
    } else {
        let before = fragments_of(path.drop_last());
        if is_separator(path.last()) {
            before.push(Seq::empty())
        } else {
            before.drop_last().push(before.last().push(path.last()))
        }
    }
}

/// The path begins at the root: its first byte is a separator.
pub open spec fn is_absolute(path: Seq<u8>) -> bool {
    path.len() > 0 && is_separator(path[0])
}

/// The fragment names no entry of its own: it is empty, or `.`, or `..`.
pub open spec fn is_plain_step(fragment: Seq<u8>) -> bool {
    fragment.len() == 0 || fragment == seq![0x2eu8] || fragment == seq![0x2eu8, 0x2eu8]
}

/// A path with one more fragment taken in: an empty fragment and `.`
/// change nothing, `..` takes the last name away, and any other fragment
/// adds the name that it stands for among the entries of the directory that
/// the path names so far.
pub open spec fn joined(path: Seq<Seq<u8>>, fragment: Seq<u8>, listing: Seq<Seq<u8>>) -> Seq<Seq<u8>> {
    if fragment.len() == 0 || fragment == seq![0x2eu8] {
        path
    } else if fragment == seq![0x2eu8, 0x2eu8] {
        if path.len() > 0 {
            path.drop_last()
        } else {
            path
        }
    } else {
        path.push(matched(fragment, listing))
    }
}

/// A path with the first `n` of some fragments taken in, where
/// `listings[i]` were the entries found for fragment `i`.
pub open spec fn joined_all(
    path: Seq<Seq<u8>>,
    fragments: Seq<Seq<u8>>,
    listings: Seq<Seq<Seq<u8>>>,
    n: int,
) -> Seq<Seq<u8>>
    decreases n,
{
    if n <= 0 {
        path
    } else {
        joined(joined_all(path, fragments, listings, n - 1), fragments[n - 1], listings[n - 1])
    }
}

/// Where the joining of a path that the guest gives begins: at the root
/// for an absolute path, else at the working directory.
pub open spec fn join_start(cwd: Seq<Seq<u8>>, path: Seq<u8>) -> Seq<Seq<u8>> {
    if is_absolute(path) {
        Seq::empty()
    } else {
        cwd
    }
}

/// The bytes of a path with a slash between its names.
pub open spec fn path_bytes(path: Seq<Seq<u8>>) -> Seq<u8>
    decreases path.len(),
{
    if path.len() == 0 {
        Seq::empty()
    } else if path.len() == 1 {
        path[0]
    } else {
        path_bytes(path.drop_last()) + seq![0x2fu8] + path.last()
    }
}

/// Says whether two names are the same but for the case of ASCII letters.
pub fn eq_ignoring_case(a: &[u8], b: &[u8]) -> (r: bool)
    ensures
        r == same_ignoring_case(a@, b@),
{
    if a.len() != b.len() {
        return false;
    }
    let mut i: usize = 0;
    while i < a.len()
        invariant
            i <= a@.len(),
            a@.len() == b@.len(),
            forall|k: int| 0 <= k < i ==> lower(a@[k]) == lower(b@[k]),
        decreases a@.len() - i,
    {
        let x: u8 = a[i];
        let y: u8 = b[i];
        let lx: u8 = if 0x41 <= x && x <= 0x5a {
            x + 0x20
        } else {
            x
        };
        let ly: u8 = if 0x41 <= y && y <= 0x5a {
            y + 0x20
        } else {
            y
        };
        if lx != ly {
            return false;
        }
        i = i + 1;
    }
    true
}

fn eq_bytes(a: &[u8], b: &[u8]) -> (r: bool)
    ensures
        r == (a@ == b@),
{
    if a.len() != b.len() {
        return false;
    }
    let mut i: usize = 0;
    while i < a.len()
        invariant
            i <= a@.len(),
            a@.len() == b@.len(),
            forall|k: int| 0 <= k < i ==> a@[k] == b@[k],
        decreases a@.len() - i,
    {
        if a[i] != b[i] {
            return false;
        }
        i = i + 1;
    }
    assert(a@ =~= b@);
    true
}

/// The name that a fragment stands for in a directory with the given
/// entries.
pub fn match_fragment(fragment: &[u8], listing: &Vec<Vec<u8>>) -> (name: Vec<u8>)
    ensures
        name@ == matched(fragment@, views(listing@)),
{
    let ghost entries = views(listing@);
    let mut i: usize = 0;
    while i < listing.len()
        invariant
            i <= listing@.len(),
            entries == views(listing@),
            forall|k: int| 0 <= k < i ==> entries[k] != fragment@,
        decreases listing@.len() - i,
    {
        assert(entries[i as int] == listing@[i as int]@);
        if eq_bytes(listing[i].as_slice(), fragment) {
            assert(entries.contains(fragment@));
            return slice_to_vec(fragment);
        }
        i = i + 1;
    }
    assert(!entries.contains(fragment@));
    let mut j: usize = 0;
    while j < listing.len()
        invariant
            j <= listing@.len(),
            entries == views(listing@),
            !entries.contains(fragment@),
            first_match(fragment@, entries, 0) == first_match(fragment@, entries, j as int),
        decreases listing@.len() - j,
    {
        assert(entries[j as int] == listing@[j as int]@);
        if eq_ignoring_case(listing[j].as_slice(), fragment) {
            return slice_to_vec(listing[j].as_slice());
        }
        j = j + 1;
    }
    slice_to_vec(fragment)
}

/// Splits a path into its fragments.
pub fn split_fragments(path: &[u8]) -> (fragments: Vec<Vec<u8>>)
    ensures
        views(fragments@) == fragments_of(path@),
{
    let mut done: Vec<Vec<u8>> = Vec::new();
    let mut current: Vec<u8> = Vec::new();
    let mut i: usize = 0;
    assert(path@.subrange(0, 0) =~= Seq::<u8>::empty());
    assert(views(done@).push(current@) =~= fragments_of(path@.subrange(0, 0)));
    while i < path.len()
        invariant
            i <= path@.len(),
            views(done@).push(current@) == fragments_of(path@.subrange(0, i as int)),
        decreases path@.len() - i,
    {
        let ghost head = path@.subrange(0, i + 1);
        assert(head.drop_last() =~= path@.subrange(0, i as int));
        assert(head.last() == path@[i as int]);
        let ghost before = views(done@).push(current@);
        let b: u8 = path[i];
        if b == 0x2f || b == 0x5c {
            let ghost listed = views(done@);
            done.push(current);
            current = Vec::new();
            assert(views(done@) =~= listed.push(before.last()));
            assert(views(done@).push(current@) =~= before.push(Seq::empty()));
        } else {
            current.push(b);
            assert(views(done@).push(current@) =~= before.drop_last().push(before.last().push(b)));
        }
        i = i + 1;
    }
    assert(path@.subrange(0, i as int) =~= path@);
    let ghost listed = views(done@);
    let ghost last = current@;
    done.push(current);
    assert(views(done@) =~= listed.push(last));
    done
}

/// A path relative to the directory that stands for the SD card: the
/// names on the way down, outermost first.
pub struct MosPath {
    names: Vec<Vec<u8>>,
}

impl View for MosPath {
    type V = Seq<Seq<u8>>;

    closed spec fn view(&self) -> Seq<Seq<u8>> {
        views(self.names@)
    }
}

impl MosPath {
    /// The path of the root itself.
    pub fn new() -> (r: Self)
        ensures
            r@ == Seq::<Seq<u8>>::empty(),
    {
        let names: Vec<Vec<u8>> = Vec::new();
        assert(views(names@) =~= Seq::<Seq<u8>>::empty());
        MosPath { names }
    }

    /// The same path once more.
    pub fn copy(&self) -> (r: Self)
        ensures
            r@ == self@,
    {
        let mut names: Vec<Vec<u8>> = Vec::new();
        let mut i: usize = 0;
        assert(views(names@) =~= views(self.names@).subrange(0, 0));
        while i < self.names.len()
            invariant
                i <= self.names@.len(),
                views(names@) == views(self.names@).subrange(0, i as int),
            decreases self.names@.len() - i,
        {
            let ghost listed = views(names@);
            let name: Vec<u8> = slice_to_vec(self.names[i].as_slice());
            names.push(name);
            assert(views(names@) =~= listed.push(self.names@[i as int]@));
            assert(views(names@) =~= views(self.names@).subrange(0, i + 1));
            i = i + 1;
        }
        assert(views(self.names@).subrange(0, i as int) =~= views(self.names@));
        MosPath { names }
    }

    /// The number of names in the path.
    pub fn len(&self) -> (n: usize)
        ensures
            n == self@.len(),
    {
        self.names.len()
    }

    /// The name at place `i`, counted from the root.
    pub fn name(&self, i: usize) -> (name: &[u8])
        requires
            i < self@.len(),
        ensures
            name@ == self@[i as int],
    {
        self.names[i].as_slice()
    }

    /// The bytes of the path, with a slash between its names.
    pub fn to_bytes(&self) -> (bytes: Vec<u8>)
        ensures
            bytes@ == path_bytes(self@),
    {
        let mut bytes: Vec<u8> = Vec::new();
        let mut i: usize = 0;
        assert(self@.subrange(0, 0) =~= Seq::<Seq<u8>>::empty());
        while i < self.names.len()
            invariant
                i <= self.names@.len(),
                bytes@ == path_bytes(self@.subrange(0, i as int)),
            decreases self.names@.len() - i,
        {
            let ghost head = self@.subrange(0, i + 1);
            assert(head.drop_last() =~= self@.subrange(0, i as int));
            assert(head.last() == self.names@[i as int]@);
            if i > 0 {
                bytes.push(0x2f);
            }
            let name: &Vec<u8> = &self.names[i];
            let ghost start = bytes@;
            let mut k: usize = 0;
            while k < name.len()
                invariant
                    k <= name@.len(),
                    bytes@ == start + name@.subrange(0, k as int),
                decreases name@.len() - k,
            {
                bytes.push(name[k]);
                assert(bytes@ =~= start + name@.subrange(0, k + 1));
                k = k + 1;
            }
            assert(name@.subrange(0, k as int) =~= name@);
            assert(bytes@ =~= path_bytes(head)) by {
                if i == 0 {
                    assert(start =~= Seq::<u8>::empty());
                }
            }
            i = i + 1;
        }
        assert(self@.subrange(0, i as int) =~= self@);
        bytes
    }

    /// Takes one more fragment in, where `listing` are the names of the
    /// entries of the directory that the path names so far.
    pub fn apply_fragment(&mut self, fragment: &[u8], listing: &Vec<Vec<u8>>)
        ensures
            final(self)@ == joined(old(self)@, fragment@, views(listing@)),
    {
        let ghost before = views(self.names@);
        if fragment.len() == 0 || (fragment.len() == 1 && fragment[0] == 0x2e) {
            assert(fragment@.len() == 1 ==> fragment@ =~= seq![0x2eu8]);
        } else if fragment.len() == 2 && fragment[0] == 0x2e && fragment[1] == 0x2e {
            assert(fragment@ =~= seq![0x2eu8, 0x2eu8]);
            if self.names.len() > 0 {
                self.names.pop();
                assert(views(self.names@) =~= before.drop_last());
            }
        } else {
            assert(fragment@ != seq![0x2eu8]);
            assert(fragment@ != seq![0x2eu8, 0x2eu8]) by {
                if fragment@.len() == 2 {
                    assert(seq![0x2eu8, 0x2eu8][0] == 0x2eu8);
                    assert(seq![0x2eu8, 0x2eu8][1] == 0x2eu8);
                }
            }
            let name: Vec<u8> = match_fragment(fragment, listing);
            self.names.push(name);
            assert(views(self.names@) =~= before.push(matched(fragment@, views(listing@))));
        }
    }

    /// Says whether taking the fragment in needs the entries of the
    /// directory that the path names so far.
    pub fn needs_listing(fragment: &[u8]) -> (r: bool)
        ensures
            r == !is_plain_step(fragment@),
    {
        if fragment.len() == 0 {
            false
        } else if fragment.len() == 1 && fragment[0] == 0x2e {
            assert(fragment@ =~= seq![0x2eu8]);
            false
        } else if fragment.len() == 2 && fragment[0] == 0x2e && fragment[1] == 0x2e {
            assert(fragment@ =~= seq![0x2eu8, 0x2eu8]);
            false
        } else {
            assert(fragment@ != seq![0x2eu8]);
            assert(fragment@ != seq![0x2eu8, 0x2eu8]) by {
                if fragment@.len() == 2 {
                    assert(seq![0x2eu8, 0x2eu8][0] == 0x2eu8);
                    assert(seq![0x2eu8, 0x2eu8][1] == 0x2eu8);
                }
            }
            true
        }
    }
}

/// The names in each of some listings.
pub open spec fn listings_of(lists: Seq<Vec<Vec<u8>>>) -> Seq<Seq<Seq<u8>>> {
    Seq::new(lists.len(), |i: int| views(lists[i]@))
}

/// The fragments were taken in, one after the other from `start`, with
/// `list_dir` asked for the entries on the way: `dirs[i]` is the path before
/// fragment `i`, and for each fragment that names an entry `lists[i]` is
/// what `list_dir` gave for that path.
pub open spec fn looked_up<F: Fn(&MosPath) -> Vec<Vec<u8>>>(
    list_dir: F,
    start: Seq<Seq<u8>>,
    fragments: Seq<Seq<u8>>,
    dirs: Seq<MosPath>,
    lists: Seq<Vec<Vec<u8>>>,
) -> bool {
    &&& dirs.len() == fragments.len()
    &&& lists.len() == fragments.len()
    &&& forall|i: int|
        0 <= i < fragments.len() ==> (#[trigger] dirs[i])@ == joined_all(
            start,
            fragments,
            listings_of(lists),
            i,
        )
    &&& forall|i: int|
        0 <= i < fragments.len() && !is_plain_step(fragments[i]) ==> call_ensures(
            list_dir,
            (&#[trigger] dirs[i],),
            lists[i],
        )
}

/// `path` is `request` joined to `cwd` with the help of `list_dir`, where
/// `dirs` are the directories on the way and `lists` what was found there.
pub open spec fn joined_with<F: Fn(&MosPath) -> Vec<Vec<u8>>>(
    list_dir: F,
    cwd: Seq<Seq<u8>>,
    request: Seq<u8>,
    dirs: Seq<MosPath>,
    lists: Seq<Vec<Vec<u8>>>,
    path: Seq<Seq<u8>>,
) -> bool {
    &&& looked_up(list_dir, join_start(cwd, request), fragments_of(request), dirs, lists)
    &&& path == joined_all(
        join_start(cwd, request),
        fragments_of(request),
        listings_of(lists),
        fragments_of(request).len() as int,
    )
}

/// Joins a path that the guest gives to the working directory. An absolute
/// path begins at the root. Each fragment that names an entry is looked up
/// in the directory that the path names so far: `list_dir` is asked for the
/// entries of that directory, and what it gives is what the fragment is
/// matched against. For the other fragments it is not asked.
pub fn mos_path_join<F: Fn(&MosPath) -> Vec<Vec<u8>>>(
    cwd: &MosPath,
    new_fragments: &[u8],
    list_dir: F,
) -> (path: MosPath)
    requires
        forall|p: &MosPath| call_requires(list_dir, (p,)),
    ensures
        exists|dirs: Seq<MosPath>, lists: Seq<Vec<Vec<u8>>>| #[trigger]
            joined_with(list_dir, cwd@, new_fragments@, dirs, lists, path@),
{
    let mut path: MosPath = if new_fragments.len() > 0 && (new_fragments[0] == 0x2f
        || new_fragments[0] == 0x5c) {
        MosPath::new()
    } else {
        cwd.copy()
    };
    let fragments: Vec<Vec<u8>> = split_fragments(new_fragments);
    let ghost start = path@;
    let ghost all = views(fragments@);
    let ghost mut dirs: Seq<MosPath> = Seq::empty();
    let ghost mut lists: Seq<Vec<Vec<u8>>> = Seq::empty();
    let mut i: usize = 0;
    while i < fragments.len()
        invariant
            i <= fragments@.len(),
            all == views(fragments@),
            dirs.len() == i,
            lists.len() == i,
            forall|k: int|
                0 <= k < i ==> (#[trigger] dirs[k])@ == joined_all(start, all, listings_of(lists), k),
            forall|k: int|
                0 <= k < i && !is_plain_step(all[k]) ==> call_ensures(
                    list_dir,
                    (&#[trigger] dirs[k],),
                    lists[k],
                ),
            path@ == joined_all(start, all, listings_of(lists), i as int),
            forall|p: &MosPath| call_requires(list_dir, (p,)),
        decreases fragments@.len() - i,
    {
        let fragment: &[u8] = fragments[i].as_slice();
        assert(all[i as int] == fragment@);
        let ghost dir = path;
        let listing: Vec<Vec<u8>> = if MosPath::needs_listing(fragment) {
            list_dir(&path)
        } else {
            Vec::new()
        };
        path.apply_fragment(fragment, &listing);
        proof {
            let longer = lists.push(listing);
            assert forall|k: int| 0 <= k <= i implies joined_all(start, all, listings_of(lists), k)
                == joined_all(start, all, listings_of(longer), k) by {
                lemma_joined_all_extends(start, all, listings_of(lists), listings_of(longer), k);
            }
            assert(listings_of(longer)[i as int] == views(listing@));
            dirs = dirs.push(dir);
            lists = longer;
        }
        i = i + 1;
    }
    proof {
        assert(start == join_start(cwd@, new_fragments@));
        assert(all == fragments_of(new_fragments@));
        assert(joined_with(list_dir, cwd@, new_fragments@, dirs, lists, path@));
    }
    path
}

/// What was found for later fragments does not change how earlier ones
/// were taken in.
pub proof fn lemma_joined_all_extends(
    path: Seq<Seq<u8>>,
    fragments: Seq<Seq<u8>>,
    listings: Seq<Seq<Seq<u8>>>,
    longer: Seq<Seq<Seq<u8>>>,
    n: int,
)
    requires
        0 <= n <= listings.len() <= longer.len(),
        forall|i: int| 0 <= i < n ==> listings[i] == longer[i],
    ensures
        joined_all(path, fragments, listings, n) == joined_all(path, fragments, longer, n),
    decreases n,
{
    if n > 0 {
        lemma_joined_all_extends(path, fragments, listings, longer, n - 1);
    }
}

/// A fragment that differs only in case from the name of an entry stands
/// for an entry of the directory that it equals but for case; and where
/// the directory has only one such entry, for that one.
pub proof fn law_case_insensitive_match(fragment: Seq<u8>, listing: Seq<Seq<u8>>, entry: int)
    requires
        0 <= entry < listing.len(),
        same_ignoring_case(listing[entry], fragment),
    ensures
        listing.contains(matched(fragment, listing)),
        same_ignoring_case(matched(fragment, listing), fragment),
        (forall|other: int|
            0 <= other < listing.len() && same_ignoring_case(listing[other], fragment)
                ==> listing[other] == listing[entry]) ==> matched(fragment, listing) == listing[entry],
{
    lemma_first_match(fragment, listing, 0, entry);
    if listing.contains(fragment) {
        let at = choose|at: int| 0 <= at < listing.len() && listing[at] == fragment;
        assert(same_ignoring_case(listing[at], fragment));
    }
}

proof fn lemma_first_match(fragment: Seq<u8>, listing: Seq<Seq<u8>>, from: int, entry: int)
    requires
        0 <= from <= entry < listing.len(),
        same_ignoring_case(listing[entry], fragment),
    ensures
        first_match(fragment, listing, from) is Some,
        from <= first_match(fragment, listing, from)->0 <= entry,
        same_ignoring_case(listing[first_match(fragment, listing, from)->0], fragment),
    decreases entry - from,
{
    if !same_ignoring_case(listing[from], fragment) {
        lemma_first_match(fragment, listing, from + 1, entry);
    }
}

/// A path of several fragments that each differ only in case from the
/// names on the way to an existing entry is joined to the names of that
/// entry, where no directory on the way holds two names that are equal but
/// for case: `target` is the entry, and `listings[i]` the entries of the
/// directory that `target` names before place `i`.
pub proof fn law_path_resolves_to_host_case(
    request: Seq<Seq<u8>>,
    target: Seq<Seq<u8>>,
    listings: Seq<Seq<Seq<u8>>>,
    n: int,
)
    requires
        0 <= n <= request.len(),
        request.len() == target.len() && request.len() == listings.len(),
        forall|i: int| 0 <= i < request.len() ==> !is_plain_step(#[trigger] request[i]),
        forall|i: int| 0 <= i < request.len() ==> same_ignoring_case(target[i], #[trigger] request[i]),
        forall|i: int| 0 <= i < request.len() ==> (#[trigger] listings[i]).contains(target[i]),
        forall|i: int, other: int|
            0 <= i < request.len() && 0 <= other < listings[i].len() && same_ignoring_case(
                #[trigger] listings[i][other],
                request[i],
            ) ==> listings[i][other] == target[i],
    ensures
        joined_all(Seq::empty(), request, listings, n) == target.subrange(0, n),
    decreases n,
{
    if n > 0 {
        law_path_resolves_to_host_case(request, target, listings, n - 1);
        let i = n - 1;
        assert(listings[i].contains(target[i]));
        let entry = choose|entry: int| 0 <= entry < listings[i].len() && listings[i][entry] == target[i];
        assert(!is_plain_step(request[i]));
        law_case_insensitive_match(request[i], listings[i], entry);
        assert(target.subrange(0, n) =~= target.subrange(0, n - 1).push(target[i]));
    } else {
        assert(target.subrange(0, 0) =~= Seq::<Seq<u8>>::empty());
    }
}

/// A path with the first `n` of some fragments taken in, on a host where
/// the directory of each path has the entries that `host` gives for it.
pub open spec fn resolved(
    host: spec_fn(Seq<Seq<u8>>) -> Seq<Seq<u8>>,
    path: Seq<Seq<u8>>,
    fragments: Seq<Seq<u8>>,
    n: int,
) -> Seq<Seq<u8>>
    decreases n,
{
    if n <= 0 {
        path
    } else {
        let so_far = resolved(host, path, fragments, n - 1);
        joined(so_far, fragments[n - 1], host(so_far))
    }
}

proof fn lemma_looked_up_on_host<F: Fn(&MosPath) -> Vec<Vec<u8>>>(
    list_dir: F,
    host: spec_fn(Seq<Seq<u8>>) -> Seq<Seq<u8>>,
    start: Seq<Seq<u8>>,
    fragments: Seq<Seq<u8>>,
    dirs: Seq<MosPath>,
    lists: Seq<Vec<Vec<u8>>>,
    n: int,
)
    requires
        forall|dir: MosPath, listing: Vec<Vec<u8>>| #[trigger]
            call_ensures(list_dir, (&dir,), listing) ==> views(listing@) == host(dir@),
        looked_up(list_dir, start, fragments, dirs, lists),
        0 <= n <= fragments.len(),
    ensures
        joined_all(start, fragments, listings_of(lists), n) == resolved(host, start, fragments, n),
    decreases n,
{
    if n > 0 {
        lemma_looked_up_on_host(list_dir, host, start, fragments, dirs, lists, n - 1);
        let dir = dirs[n - 1];
        assert(dir@ == resolved(host, start, fragments, n - 1));
        assert(listings_of(lists)[n - 1] == views(lists[n - 1]@));
        if !is_plain_step(fragments[n - 1]) {
            assert(call_ensures(list_dir, (&dir,), lists[n - 1]));
        }
    }
}

/// Where what `list_dir` gives for a directory is what the host has there,
/// the joined path is built from left to right over the fragments of the
/// request, from the root for an absolute request and else from the
/// working directory: an empty fragment and `.` are passed over, `..`
/// takes the last name away, and any other fragment adds the name of the
/// entry that it stands for in the directory that the path names so far.
pub proof fn law_join_follows_the_host<F: Fn(&MosPath) -> Vec<Vec<u8>>>(
    list_dir: F,
    host: spec_fn(Seq<Seq<u8>>) -> Seq<Seq<u8>>,
    cwd: Seq<Seq<u8>>,
    request: Seq<u8>,
    dirs: Seq<MosPath>,
    lists: Seq<Vec<Vec<u8>>>,
    path: Seq<Seq<u8>>,
)
    requires
        forall|dir: MosPath, listing: Vec<Vec<u8>>| #[trigger]
            call_ensures(list_dir, (&dir,), listing) ==> views(listing@) == host(dir@),
        joined_with(list_dir, cwd, request, dirs, lists, path),
    ensures
        path == resolved(
            host,
            join_start(cwd, request),
            fragments_of(request),
            fragments_of(request).len() as int,
        ),
{
    lemma_looked_up_on_host(
        list_dir,
        host,
        join_start(cwd, request),
        fragments_of(request),
        dirs,
        lists,
        fragments_of(request).len() as int,
    );
}

/// On a host that has an entry `target`, a request whose fragments differ
/// from the names of `target` only in case resolves from the root to
/// `target` itself, where no directory on the way holds two names that are
/// equal but for case.
pub proof fn law_request_finds_the_host_entry(
    host: spec_fn(Seq<Seq<u8>>) -> Seq<Seq<u8>>,
    request: Seq<Seq<u8>>,
    target: Seq<Seq<u8>>,
    n: int,
)
    requires
        0 <= n <= request.len(),
        request.len() == target.len(),
        forall|i: int| 0 <= i < request.len() ==> !is_plain_step(#[trigger] request[i]),
        forall|i: int| 0 <= i < request.len() ==> same_ignoring_case(target[i], #[trigger] request[i]),
        forall|i: int|
            0 <= i < request.len() ==> host(target.subrange(0, i)).contains(#[trigger] target[i]),
        forall|i: int, other: int|
            0 <= i < request.len() && 0 <= other < host(target.subrange(0, i)).len()
                && same_ignoring_case(#[trigger] host(target.subrange(0, i))[other], request[i])
                ==> host(target.subrange(0, i))[other] == target[i],
    ensures
        resolved(host, Seq::empty(), request, n) == target.subrange(0, n),
    decreases n,
{
    if n > 0 {
        law_request_finds_the_host_entry(host, request, target, n - 1);
        let i = n - 1;
        let listing = host(target.subrange(0, i));
        assert(listing.contains(target[i]));
        let entry = choose|entry: int| 0 <= entry < listing.len() && listing[entry] == target[i];
        assert(!is_plain_step(request[i]));
        assert forall|other: int|
            0 <= other < listing.len() && same_ignoring_case(
                listing[other],
                request[i],
            ) implies listing[other] == listing[entry] by {
            assert(host(target.subrange(0, i))[other] == target[i]);
        }
        law_case_insensitive_match(request[i], listing, entry);
        assert(target.subrange(0, n) =~= target.subrange(0, n - 1).push(target[i]));
    } else {
        assert(target.subrange(0, 0) =~= Seq::<Seq<u8>>::empty());
    }
}

} // verus!
