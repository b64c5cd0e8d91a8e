//! Splitting a path into the elements that are displayed.
use vstd::prelude::*;
use vstd::string::*;

verus! {

/// The components of a path, each as text, in root-to-leaf order.
pub uninterp spec fn path_components(p: Seq<char>) -> Seq<Seq<char>>;

/// The texts held by a sequence of strings.
pub open spec fn strs_view(v: Seq<String>) -> Seq<Seq<char>> {
    v.map_values(|s: String| s@)
}

proof fn lemma_strs_view_push(v: Seq<String>, x: String)
    ensures
        strs_view(v.push(x)) == strs_view(v).push(x@),
{
    assert(strs_view(v.push(x)) =~= strs_view(v).push(x@));
}

/// The element that stands for the home directory.
pub open spec fn home_marker() -> Seq<char> {
    seq!['~']
}

/// `pre` matches the first components of `s`, whole component by whole component.
pub open spec fn is_component_prefix(pre: Seq<Seq<char>>, s: Seq<Seq<char>>) -> bool {
    &&& pre.len() <= s.len()
    &&& forall|i: int| 0 <= i < pre.len() ==> pre[i] == s[i]
}

/// Relies on std::path::Path::components: splits the path into its components,
/// each turned into text.
#[verifier::external_body]
fn components_of(p: &str) -> (r: Vec<String>)
    ensures
        strs_view(r@) == path_components(p@),
{
    std::path::Path::new(p).components().map(|c| c.as_os_str().to_string_lossy().into_owned()).collect()
}

/// What a `Path` holds: the path's text, whether the home directory is shown
/// as a marker, and the home directory's text when it is known.
pub struct PathView {
    pub path: Seq<char>,
    pub show_home: bool,
    pub home: Option<Seq<char>>,
}

impl PathView {
    pub open spec fn components(self) -> Seq<Seq<char>> {
        path_components(self.path)
    }

    /// The components below the home directory, when the path lies in it.
    pub open spec fn home_subdir(self) -> Option<Seq<Seq<char>>> {
        match self.home {
            Some(h) => if is_component_prefix(path_components(h), self.components()) {
                Some(self.components().skip(path_components(h).len() as int))
            } else {
                None
            },
            None => None,
        }
    }

    /// The elements displayed for this path, root to leaf.
    pub open spec fn elements(self) -> Seq<Seq<char>> {
        if self.show_home && self.home_subdir() is Some {
            seq![home_marker()] + self.home_subdir()->0
        } else {
            self.components()
        }
    }
}

/// A path that lies strictly inside the home directory, with the home
/// directory shown, displays as `~` followed by its components below the
/// home directory.
pub proof fn lemma_inside_home(p: PathView, h: Seq<char>)
    requires
        p.show_home,
        p.home == Some(h),
        is_component_prefix(path_components(h), p.components()),
        path_components(h).len() < p.components().len(),
    ensures
        p.elements() == seq![home_marker()] + p.components().skip(path_components(h).len() as int),
        p.elements().len() == 1 + p.components().len() - path_components(h).len(),
{
}

/// The home directory itself, shown as home, displays as the marker alone.
pub proof fn lemma_at_home(p: PathView, h: Seq<char>)
    requires
        p.show_home,
        p.home == Some(h),
        p.components() == path_components(h),
    ensures
        p.elements() == seq![home_marker()],
{
    assert(p.components().skip(p.components().len() as int) =~= Seq::<Seq<char>>::empty());
    assert(seq![home_marker()] + Seq::<Seq<char>>::empty() =~= seq![home_marker()]);
}

/// A path outside the home directory, or one whose home directory is
/// unknown, displays as its components whether or not the home directory is
/// shown.
pub proof fn lemma_outside_home(p: PathView)
    requires
        match p.home {
            Some(h) => !is_component_prefix(path_components(h), p.components()),
            None => true,
        },
    ensures
        (PathView { show_home: true, ..p }).elements() == p.components(),
        (PathView { show_home: false, ..p }).elements() == p.components(),
{
}

/// A path to display, with the choice of showing the home directory as `~`.
pub struct Path {
    path: String,
    show_home: bool,
    home: Option<String>,
}

impl View for Path {
    type V = PathView;

    closed spec fn view(&self) -> PathView {
        PathView {
            path: self.path@,
            show_home: self.show_home,
            home: match self.home {
                Some(h) => Some(h@),
                None => None,
            },
        }
    }
}

impl Path {
    /// `home` is the home directory, or `None` where it cannot be resolved.
    pub fn new(path: String, show_home: bool, home: Option<String>) -> (r: Self)
        ensures
            r@.path == path@,
            r@.show_home == show_home,
            r@.home == (match home {
                Some(h) => Some(h@),
                None => None::<Seq<char>>,
            }),
    {
        Path { path, show_home, home }
    }

    /// The components of `comps` below the home directory, when `comps` (the
    /// path's components) starts with those of the home directory.
    fn home_subdir(&self, comps: &Vec<String>) -> (r: Option<Vec<String>>)
        requires
            strs_view(comps@) == self@.components(),
        ensures
            match r {
                Some(v) => self@.home_subdir() == Some(strs_view(v@)),
                None => self@.home_subdir() is None,
            },
    {
        let home = match &self.home {
            Some(h) => h,
            None => return None,
        };
        let hc = components_of(home.as_str());
        assert(self@.home == Some(home@));
        if hc.len() > comps.len() {
            return None;
        }
        let mut i: usize = 0;
        while i < hc.len()
            invariant
                hc.len() <= comps.len(),
                i <= hc.len(),
                strs_view(hc@) == path_components(home@),
                strs_view(comps@) == self@.components(),
                self@.home == Some(home@),
                forall|j: int| 0 <= j < i ==> strs_view(hc@)[j] == strs_view(comps@)[j],
            decreases hc.len() - i,
        {
            if hc[i] != comps[i] {
                assert(strs_view(hc@)[i as int] != strs_view(comps@)[i as int]);
                assert(!is_component_prefix(path_components(home@), self@.components()));
                return None;
            }
            i = i + 1;
        }
        let mut sub: Vec<String> = Vec::new();
        let mut k: usize = hc.len();
        while k < comps.len()
            invariant
                hc.len() <= k <= comps.len(),
                strs_view(sub@) == strs_view(comps@).subrange(hc.len() as int, k as int),
            decreases comps.len() - k,
        {
            let ghost prev = sub@;
            let c = comps[k].clone();
            assert(c@ == strs_view(comps@)[k as int]);
            sub.push(c);
            assert(sub@ == prev.push(c));
            proof { lemma_strs_view_push(prev, c); }
            assert(strs_view(sub@) =~= strs_view(comps@).subrange(hc.len() as int, k + 1));
            k = k + 1;
        }
        assert(strs_view(comps@).skip(hc.len() as int) =~= strs_view(comps@).subrange(hc.len() as int, comps.len() as int));
        Some(sub)
    }

    /// The elements to display, root to leaf: `~` followed by the components
    /// below the home directory when the home directory is shown and the path
    /// lies in it, else every component of the path.
    pub fn elements(&self) -> (r: Vec<String>)
        ensures
            strs_view(r@) == self@.elements(),
    {
        let comps = components_of(self.path.as_str());
        if self.show_home {
            match self.home_subdir(&comps) {
                Some(sub) => {
                    let mut r: Vec<String> = Vec::new();
                    proof {
                        reveal_strlit("~");
                    }
                    let marker = String::from_str("~");
                    assert(marker@ == home_marker());
                    r.push(marker);
                    assert(strs_view(r@) =~= seq![home_marker()]);
                    let mut i: usize = 0;
                    while i < sub.len()
                        invariant
                            i <= sub.len(),
                            strs_view(r@) == seq![home_marker()] + strs_view(sub@).take(i as int),
                        decreases sub.len() - i,
                    {
                        let ghost prev = r@;
                        let c = sub[i].clone();
                        assert(c@ == strs_view(sub@)[i as int]);
                        r.push(c);
                        assert(r@ == prev.push(c));
                        proof { lemma_strs_view_push(prev, c); }
                        assert(strs_view(sub@).take(i + 1) =~= strs_view(sub@).take(i as int).push(strs_view(sub@)[i as int]));
                        assert(strs_view(r@) =~= seq![home_marker()] + strs_view(sub@).take(i + 1));
                        i = i + 1;
                    }
                    assert(strs_view(sub@).take(sub.len() as int) =~= strs_view(sub@));
                    return r;
                },
                None => {},
            }
        }
        comps
    }
}

/// Relies on chrono::Local::now: the current instant as whole seconds since
/// the Unix epoch, the nanoseconds past that second (above a billion only in
/// a leap second), and the local offset from UTC in seconds.
#[verifier::external_body]
fn local_now() -> (r: (i64, u32, i32))
    ensures
        r.1 < 2_000_000_000,
        -86_400 < r.2 < 86_400,
{
    let now = chrono::Local::now();
    (now.timestamp(), now.timestamp_subsec_nanos(), now.offset().local_minus_utc())
}

/// A local date and time, with the format it is to be shown in.
pub struct DateTime {
    timestamp: i64,
    nanos: u32,
    offset: i32,
    format: String,
}

impl DateTime {
    /// The instant and offset are in range: nanoseconds below two billion,
    /// the offset under a day either way.
    pub closed spec fn wf(&self) -> bool {
        &&& self.nanos < 2_000_000_000
        &&& -86_400 < self.offset < 86_400
    }

    pub closed spec fn format_text(&self) -> Seq<char> {
        self.format@
    }

    /// The current local date and time, to be shown in `format`.
    pub fn new(format: String) -> (r: Self)
        ensures
            r.wf(),
            r.format_text() == format@,
    {
        let (timestamp, nanos, offset) = local_now();
        DateTime { timestamp, nanos, offset, format }
    }
}

} // verus!
