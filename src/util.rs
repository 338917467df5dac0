//! Project lookup and the path completion offered when asking for a file.

use vstd::prelude::*;
use crate::paths::{ancestors_of, chosen_for_some_answers, locate_root, opt_string, search_start};
use crate::text::{chars_of, has_prefix, is_word, matches_at, string_of};
use crate::transpile::string_views;

verus! {

/// The root of the project that `base_path` lies in: the deepest of its
/// absolute form and that path's ancestors that holds a `pack.toml`, made
/// relative to the working directory `cwd` where that can be formed. `None`
/// where no start path can be formed or no ancestor holds the file.
pub fn get_project_path(base_path: &str, cwd: &str) -> (r: Option<String>)
    ensures
        search_start(base_path@, cwd@) is None ==> r is None,
        search_start(base_path@, cwd@) matches Some(a) ==> chosen_for_some_answers(
            opt_string(r),
            ancestors_of(a),
            cwd@,
        ),
{
    locate_root(base_path, cwd, "pack.toml")
}

/// `s` without the `/` characters at its end.
pub open spec fn trim_trailing_slashes(s: Seq<char>) -> Seq<char>
    decreases s.len(),
{
    if s.len() > 0 && s.last() == '/' {
        trim_trailing_slashes(s.drop_last())
    } else {
        s
    }
}

/// The index of the last `/` of `s`, -1 where it has none.
pub open spec fn last_slash(s: Seq<char>) -> int
    decreases s.len(),
{
    if s.len() == 0 {
        -1
    } else if s.last() == '/' {
        s.len() - 1
    } else {
        last_slash(s.drop_last())
    }
}

proof fn lemma_last_slash_bounds(s: Seq<char>)
    ensures
        -1 <= last_slash(s) < s.len(),
        last_slash(s) >= 0 ==> s[last_slash(s)] == '/',
    decreases s.len(),
{
    if s.len() > 0 {
        lemma_last_slash_bounds(s.drop_last());
    }
}

/// The folder part and the name part of a typed path. A path ending in `/`
/// names a folder and an empty name; a path without `/` names an entry of
/// the working directory. An empty folder part stands for `.`.
pub open spec fn split_input_spec(s: Seq<char>) -> (Seq<char>, Seq<char>) {
    let (parent, current) = if s.len() > 0 && s.last() == '/' {
        (trim_trailing_slashes(s), Seq::empty())
    } else if last_slash(s) >= 0 {
        let k = last_slash(s);
        if k == 0 {
            (seq!['/'], s.subrange(1, s.len() as int))
        } else {
            (s.subrange(0, k), s.subrange(k + 1, s.len() as int))
        }
    } else {
        (Seq::empty(), s)
    };
    (if parent.len() == 0 {
        seq!['.']
    } else {
        parent
    }, current)
}

/// The entries of `entries` that begin with `p`, in their order.
pub open spec fn with_prefix(entries: Seq<Seq<char>>, p: Seq<char>) -> Seq<Seq<char>>
    decreases entries.len(),
{
    if entries.len() == 0 {
        entries
    } else if has_prefix(entries.last(), p) {
        with_prefix(entries.drop_last(), p).push(entries.last())
    } else {
        with_prefix(entries.drop_last(), p)
    }
}

proof fn lemma_with_prefix_extends(s: Seq<Seq<char>>, p: Seq<char>, n: int)
    requires
        0 <= n <= s.len(),
    ensures
        with_prefix(s.subrange(0, n), p).len() <= with_prefix(s, p).len(),
        with_prefix(s, p).subrange(0, with_prefix(s.subrange(0, n), p).len() as int) == with_prefix(
            s.subrange(0, n),
            p,
        ),
    decreases s.len(),
{
    if n == s.len() {
        assert(s.subrange(0, n) =~= s);
        assert(with_prefix(s, p).subrange(0, with_prefix(s, p).len() as int) =~= with_prefix(s, p));
    } else {
        assert(s.drop_last().subrange(0, n) =~= s.subrange(0, n));
        lemma_with_prefix_extends(s.drop_last(), p, n);
        let a = with_prefix(s.subrange(0, n), p);
        let b = with_prefix(s.drop_last(), p);
        let c = with_prefix(s, p);
        if has_prefix(s.last(), p) {
            assert(c == b.push(s.last()));
            assert(c.subrange(0, a.len() as int) =~= b.subrange(0, a.len() as int));
        }
    }
}

/// The index of the last occurrence of `k` in `keys`, -1 where there is none.
pub open spec fn last_index_of(keys: Seq<Seq<char>>, k: Seq<char>) -> int
    decreases keys.len(),
{
    if keys.len() == 0 {
        -1
    } else if keys.last() == k {
        keys.len() - 1
    } else {
        last_index_of(keys.drop_last(), k)
    }
}

proof fn lemma_last_index_bounds(keys: Seq<Seq<char>>, k: Seq<char>)
    ensures
        -1 <= last_index_of(keys, k) < keys.len(),
        last_index_of(keys, k) >= 0 ==> keys[last_index_of(keys, k)] == k,
        last_index_of(keys, k) < 0 ==> !keys.contains(k),
    decreases keys.len(),
{
    if keys.len() > 0 {
        lemma_last_index_bounds(keys.drop_last(), k);
        if last_index_of(keys, k) < 0 {
            assert forall|i: int| 0 <= i < keys.len() implies keys[i] != k by {
                if i < keys.len() - 1 {
                    assert(keys.drop_last()[i] == keys[i]);
                }
            }
        }
    }
}

/// Completion of typed paths: the entries of the typed folder that begin
/// with the typed name. Folder listings are kept once read.
#[derive(Debug, Clone, Default)]
pub struct PathAutocomplete {
    parent: String,
    current: String,
    outputs: Vec<String>,
    cache_keys: Vec<String>,
    cache_entries: Vec<Vec<String>>,
}

impl PathAutocomplete {
    /// Each kept folder name has its listing.
    pub closed spec fn wf(&self) -> bool {
        self.cache_keys@.len() == self.cache_entries@.len()
    }

    /// The folder part of the last input.
    pub closed spec fn parent_view(&self) -> Seq<char> {
        self.parent@
    }

    /// The name part of the last input.
    pub closed spec fn current_view(&self) -> Seq<char> {
        self.current@
    }

    /// The suggestions for the last input.
    pub closed spec fn outputs_view(&self) -> Seq<Seq<char>> {
        string_views(self.outputs@)
    }

    /// The listing kept for `folder`, if any.
    pub closed spec fn listing(&self, folder: Seq<char>) -> Option<Seq<Seq<char>>> {
        let i = last_index_of(string_views(self.cache_keys@), folder);
        if i >= 0 {
            Some(string_views(self.cache_entries@[i]@))
        } else {
            None
        }
    }

    /// A completer with no input and no listing.
    pub fn new() -> (r: Self)
        ensures
            r.wf(),
            r.parent_view() == Seq::<char>::empty(),
            r.current_view() == Seq::<char>::empty(),
            r.outputs_view() == Seq::<Seq<char>>::empty(),
            forall|f: Seq<char>| #[trigger] r.listing(f) is None,
    {
        let r = PathAutocomplete {
            parent: String::new(),
            current: String::new(),
            outputs: Vec::new(),
            cache_keys: Vec::new(),
            cache_entries: Vec::new(),
        };
        assert(string_views(r.outputs@) =~= Seq::<Seq<char>>::empty());
        r
    }

    /// Splits a typed path into its folder part and its name part.
    pub fn split_input(input: &str) -> (r: (String, String))
        ensures
            (r.0@, r.1@) == split_input_spec(input@),
    {
        let s = chars_of(input);
        let n = s.len();
        let mut parent: Vec<char> = Vec::new();
        let mut current: Vec<char> = Vec::new();
        if n > 0 && s[n - 1] == '/' {
            let mut end = n;
            assert(s@.subrange(0, n as int) =~= s@);
            while end > 0 && s[end - 1] == '/'
                invariant
                    end <= s@.len(),
                    trim_trailing_slashes(s@) == trim_trailing_slashes(s@.subrange(0, end as int)),
                decreases end,
            {
                assert(s@.subrange(0, end as int).drop_last() =~= s@.subrange(0, end - 1));
                end = end - 1;
            }
            assert(trim_trailing_slashes(s@.subrange(0, end as int)) == s@.subrange(0, end as int));
            let mut i: usize = 0;
            while i < end
                invariant
                    end <= s@.len(),
                    i <= end,
                    parent@ == s@.subrange(0, i as int),
                decreases end - i,
            {
                parent.push(s[i]);
                i = i + 1;
                assert(parent@ =~= s@.subrange(0, i as int));
            }
        } else {
            let mut k: usize = 0;
            let mut found = false;
            let mut i: usize = 0;
            while i < n
                invariant
                    n == s@.len(),
                    i <= n,
                    found == (last_slash(s@.subrange(0, i as int)) >= 0),
                    found ==> k == last_slash(s@.subrange(0, i as int)),
                decreases n - i,
            {
                assert(s@.subrange(0, i + 1).drop_last() =~= s@.subrange(0, i as int));
                if s[i] == '/' {
                    k = i;
                    found = true;
                }
                i = i + 1;
            }
            assert(s@.subrange(0, n as int) =~= s@);
            proof {
                lemma_last_slash_bounds(s@);
            }
            if !found {
                current = s;
            } else {
                let ku = k;
                if ku == 0 {
                    parent.push('/');
                } else {
                    let mut j: usize = 0;
                    while j < ku
                        invariant
                            ku <= s@.len(),
                            j <= ku,
                            parent@ == s@.subrange(0, j as int),
                        decreases ku - j,
                    {
                        parent.push(s[j]);
                        j = j + 1;
                        assert(parent@ =~= s@.subrange(0, j as int));
                    }
                }
                let mut j: usize = ku + 1;
                while j < n
                    invariant
                        n == s@.len(),
                        ku < n,
                        ku + 1 <= j <= n,
                        current@ == s@.subrange(ku + 1, j as int),
                    decreases n - j,
                {
                    current.push(s[j]);
                    j = j + 1;
                    assert(current@ =~= s@.subrange(ku + 1, j as int));
                }
            }
        }
        if parent.len() == 0 {
            parent.push('.');
        }
        proof {
            assert(parent@ =~= split_input_spec(input@).0);
            assert(current@ =~= split_input_spec(input@).1);
        }
        (string_of(&parent), string_of(&current))
    }

    fn find_listing(&self, folder: &str) -> (r: Option<usize>)
        requires
            self.wf(),
        ensures
            match r {
                Some(i) => i < self.cache_entries@.len() && i == last_index_of(
                    string_views(self.cache_keys@),
                    folder@,
                ),
                None => last_index_of(string_views(self.cache_keys@), folder@) < 0,
            },
    {
        let mut found: Option<usize> = None;
        let mut i: usize = 0;
        while i < self.cache_keys.len()
            invariant
                self.wf(),
                i <= self.cache_keys@.len(),
                match found {
                    Some(j) => j < i && j == last_index_of(
                        string_views(self.cache_keys@).subrange(0, i as int),
                        folder@,
                    ),
                    None => last_index_of(string_views(self.cache_keys@).subrange(0, i as int), folder@)
                        < 0,
                },
            decreases self.cache_keys@.len() - i,
        {
            let ghost keys = string_views(self.cache_keys@);
            assert(keys.subrange(0, i + 1).drop_last() =~= keys.subrange(0, i as int));
            proof {
                lemma_last_index_bounds(keys.subrange(0, i as int), folder@);
            }
            if is_word(&chars_of(self.cache_keys[i].as_str()), folder) {
                found = Some(i);
            }
            i = i + 1;
        }
        assert(string_views(self.cache_keys@).subrange(0, self.cache_keys@.len() as int)
            =~= string_views(self.cache_keys@));
        found
    }

    /// Whether a listing of `folder` is kept.
    pub fn has_listing(&self, folder: &str) -> (r: bool)
        requires
            self.wf(),
        ensures
            r == self.listing(folder@) is Some,
    {
        self.find_listing(folder).is_some()
    }

    /// Keeps `entries` as the listing of `folder`, in place of any earlier one.
    pub fn cache_listing(&mut self, folder: &str, entries: Vec<String>)
        requires
            old(self).wf(),
        ensures
            final(self).wf(),
            final(self).listing(folder@) == Some(string_views(entries@)),
            forall|f: Seq<char>| f != folder@ ==> #[trigger] final(self).listing(f) == old(self).listing(f),
            final(self).parent_view() == old(self).parent_view(),
            final(self).current_view() == old(self).current_view(),
            final(self).outputs_view() == old(self).outputs_view(),
    {
        let ghost old_keys = string_views(self.cache_keys@);
        self.cache_keys.push(folder.to_owned());
        self.cache_entries.push(entries);
        proof {
            let keys = string_views(self.cache_keys@);
            assert(keys.drop_last() =~= old_keys);
            assert forall|f: Seq<char>| f != folder@ implies #[trigger] self.listing(f) == old(
                self,
            ).listing(f) by {
                lemma_last_index_bounds(old_keys, f);
            }
        }
    }

    /// The suggestions for the last input.
    pub fn outputs(&self) -> (r: Vec<String>)
        ensures
            string_views(r@) == self.outputs_view(),
    {
        let mut r: Vec<String> = Vec::new();
        let mut i: usize = 0;
        while i < self.outputs.len()
            invariant
                i <= self.outputs@.len(),
                string_views(r@) == string_views(self.outputs@).subrange(0, i as int),
            decreases self.outputs@.len() - i,
        {
            let ghost before = r@;
            r.push(self.outputs[i].clone());
            assert(string_views(r@) =~= string_views(before).push(self.outputs@[i as int]@));
            i = i + 1;
            assert(string_views(r@) =~= string_views(self.outputs@).subrange(0, i as int));
        }
        assert(string_views(self.outputs@).subrange(0, self.outputs@.len() as int)
            =~= string_views(self.outputs@));
        r
    }

    /// Takes a new input. Where its folder or name part changed, the
    /// suggestions become the entries of the folder's listing that begin
    /// with the name; `false` where no listing of the folder is kept, the
    /// suggestions then left as they were.
    pub fn update_input(&mut self, input: &str) -> (r: bool)
        requires
            old(self).wf(),
        ensures
            final(self).wf(),
            forall|f: Seq<char>| #[trigger] final(self).listing(f) == old(self).listing(f),
            ({
                let (p, c) = split_input_spec(input@);
                if old(self).parent_view() == p && old(self).current_view() == c {
                    &&& r
                    &&& final(self).parent_view() == p
                    &&& final(self).current_view() == c
                    &&& final(self).outputs_view() == old(self).outputs_view()
                } else {
                    &&& final(self).parent_view() == p
                    &&& final(self).current_view() == c
                    &&& match old(self).listing(p) {
                        Some(es) => r && final(self).outputs_view() == with_prefix(es, c),
                        None => !r && final(self).outputs_view() == old(self).outputs_view(),
                    }
                }
            }),
    {
        let (parent, current) = PathAutocomplete::split_input(input);
        if is_word(&chars_of(self.parent.as_str()), parent.as_str()) && is_word(
            &chars_of(self.current.as_str()),
            current.as_str(),
        ) {
            return true;
        }
        let idx = self.find_listing(parent.as_str());
        let cur = chars_of(current.as_str());
        self.parent = parent;
        self.current = current;
        match idx {
            None => false,
            Some(k) => {
                let entries = &self.cache_entries[k];
                let mut out: Vec<String> = Vec::new();
                let mut i: usize = 0;
                while i < entries.len()
                    invariant
                        i <= entries@.len(),
                        string_views(out@) == with_prefix(
                            string_views(entries@).subrange(0, i as int),
                            cur@,
                        ),
                    decreases entries@.len() - i,
                {
                    let e = chars_of(entries[i].as_str());
                    let ghost es = string_views(entries@);
                    assert(es.subrange(0, i + 1).drop_last() =~= es.subrange(0, i as int));
                    assert(es.subrange(0, i + 1).last() == e@);
                    assert(e@.subrange(0, e@.len() as int) =~= e@);
                    if matches_at(&e, 0, &cur) {
                        let ghost before = out@;
                        out.push(entries[i].clone());
                        assert(string_views(out@) =~= string_views(before).push(e@));
                    }
                    i = i + 1;
                }
                assert(string_views(entries@).subrange(0, entries@.len() as int) =~= string_views(
                    entries@,
                ));
                self.outputs = out;
                true
            },
        }
    }

    /// The first entry of the listing of `folder` that begins with `prefix`.
    pub fn first_match(&self, folder: &str, prefix: &str) -> (r: Option<String>)
        requires
            self.wf(),
        ensures
            match self.listing(folder@) {
                None => r is None,
                Some(es) => match r {
                    None => with_prefix(es, prefix@).len() == 0,
                    Some(e) => with_prefix(es, prefix@).len() > 0 && e@ == with_prefix(es, prefix@)[0],
                },
            },
    {
        match self.find_listing(folder) {
            None => None,
            Some(k) => {
                let entries = &self.cache_entries[k];
                assert(self.listing(folder@) == Some(string_views(entries@)));
                let p = chars_of(prefix);
                let mut i: usize = 0;
                while i < entries.len()
                    invariant
                        i <= entries@.len(),
                        p@ == prefix@,
                        self.listing(folder@) == Some(string_views(entries@)),
                        forall|j: int|
                            0 <= j < i ==> !has_prefix(#[trigger] string_views(entries@)[j], p@),
                        with_prefix(string_views(entries@).subrange(0, i as int), p@).len() == 0,
                    decreases entries@.len() - i,
                {
                    let e = chars_of(entries[i].as_str());
                    let ghost es = string_views(entries@);
                    assert(es.subrange(0, i + 1).drop_last() =~= es.subrange(0, i as int));
                    assert(e@.subrange(0, e@.len() as int) =~= e@);
                    if matches_at(&e, 0, &p) {
                        assert(es[i as int] == e@);
                        assert(has_prefix(es[i as int], prefix@));
                        let found = entries[i].clone();
                        assert(found@ == es[i as int]);
                        proof {
                            assert(with_prefix(es.subrange(0, i + 1), prefix@) =~= seq![es[i as int]]);
                            lemma_with_prefix_extends(es, prefix@, i + 1);
                            assert(with_prefix(es, prefix@).subrange(0, 1)[0] == es[i as int]);
                            assert(self.listing(folder@) == Some(es));
                        }
                        return Some(found);
                    }
                    i = i + 1;
                }
                assert(string_views(entries@).subrange(0, entries@.len() as int) =~= string_views(
                    entries@,
                ));
                None
            },
        }
    }

    /// The completion of `input`: the highlighted suggestion where there is
    /// one, else the first entry of the folder's listing that begins with
    /// the typed name, joined to the folder part. The completion becomes the
    /// new input. `Err` where the needed listing is not kept.
    pub fn get_completion(&mut self, input: &str, highlighted: Option<String>) -> (r: Result<
        Option<String>,
        (),
    >)
        requires
            old(self).wf(),
        ensures
            final(self).wf(),
            forall|f: Seq<char>| #[trigger] final(self).listing(f) == old(self).listing(f),
            ({
                let (p, c) = split_input_spec(input@);
                match highlighted {
                    Some(h) => (r matches Ok(Some(s)) && s@ == p + seq!['/'] + h@
                        && final(self).parent_view() == split_input_spec(s@).0),
                    None => match old(self).listing(p) {
                        None => r is Err,
                        Some(es) => if with_prefix(es, c).len() == 0 {
                            r == Ok::<Option<String>, ()>(None)
                        } else {
                            (r matches Ok(Some(s)) && s@ == p + seq!['/'] + with_prefix(es, c)[0])
                        },
                    },
                }
            }),
    {
        let (parent, current) = PathAutocomplete::split_input(input);
        let chosen = match highlighted {
            Some(h) => h,
            None => match self.first_match(parent.as_str(), current.as_str()) {
                Some(e) => e,
                None => {
                    if self.has_listing(parent.as_str()) {
                        return Ok(None);
                    }
                    return Err(());
                },
            },
        };
        let mut out = chars_of(parent.as_str());
        out.push('/');
        crate::text::push_str(&mut out, chosen.as_str());
        assert(out@ =~= parent@ + seq!['/'] + chosen@);
        let completion = string_of(&out);
        self.update_input(completion.as_str());
        Ok(Some(completion))
    }
}

} // verus!
