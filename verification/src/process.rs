//! The supervisor's records: one per started process, and the table of
//! running processes by name.
use vstd::prelude::*;

use crate::text::{
    decimal, drop_suffix, has_suffix, lemma_parse_decimal, parse_u64_spec, push_char,
    push_decimal, push_str, views,
};

verus! {

/// A path part that names something: neither empty nor `.`.
pub open spec fn names_part(p: Seq<char>) -> bool {
    p.len() > 0 && p != seq!['.']
}

/// Reading `s` from its end, with `cur` the part already read after it:
/// the last part between slashes that names something, if any.
pub open spec fn last_part_from(s: Seq<char>, cur: Seq<char>) -> Option<Seq<char>>
    decreases s.len(),
{
    if s.len() == 0 {
        if names_part(cur) {
            Some(cur)
        } else {
            None
        }
    } else if s.last() == '/' {
        if names_part(cur) {
            Some(cur)
        } else {
            last_part_from(s.drop_last(), Seq::<char>::empty())
        }
    } else {
        last_part_from(s.drop_last(), seq![s.last()] + cur)
    }
}

/// The last component of a Unix path, as `std::path::Path::file_name`
/// gives it: the last part between slashes other than an empty part or
/// `.`; none when there is no such part or when it is `..`.
pub open spec fn path_file_name(path: Seq<char>) -> Option<Seq<char>> {
    match last_part_from(path, Seq::<char>::empty()) {
        Some(p) => if p == seq!['.', '.'] {
            None
        } else {
            Some(p)
        },
        None => None,
    }
}

/// `Path::file_name` on `path`, as a string. The component of a path made
/// from a `&str` is valid UTF-8, so the conversion keeps it whole.
#[verifier::external_body]
fn file_name(path: &str) -> (r: Option<String>)
    ensures
        match r {
            Some(f) => path_file_name(path@) == Some(f@),
            None => path_file_name(path@) is None,
        },
{
    match std::path::Path::new(path).file_name() {
        Some(f) => Some(f.to_string_lossy().into_owned()),
        None => None,
    }
}

/// The name of one of a process's pipes: the executable's file name, the
/// start time, a dot and the pipe's letter.
pub open spec fn pipe_name(file_name: Seq<char>, timestamp: u64, letter: char) -> Seq<char> {
    file_name + decimal(timestamp as nat) + seq!['.', letter]
}

/// A started process: what it runs, when it started, its id, the pipes
/// that carry its input, output and errors, and its handle `child`.
pub struct ProcessInfo<C> {
    pub exec_name: String,
    pub timestamp: u64,
    pub pid: u32,
    pub in_pipe: String,
    pub out_pipe: String,
    pub err_pipe: String,
    pub child: C,
}

/// How a process record is shown.
pub open spec fn process_text(
    exec_name: Seq<char>,
    timestamp: u64,
    pid: u32,
    in_pipe: Seq<char>,
    out_pipe: Seq<char>,
    err_pipe: Seq<char>,
) -> Seq<char> {
    "ProcessInfo: exec_name="@ + exec_name + ", timestamp="@ + decimal(timestamp as nat)
        + ", pid="@ + decimal(pid as nat) + ", in_pipe="@ + in_pipe + ", out_pipe="@ + out_pipe
        + ", err_pipe="@ + err_pipe
}

/// How a record is shown carries every field under its label, for every
/// record: read from the end, the error pipe after `, err_pipe=`, before
/// that the output pipe after `, out_pipe=`, the input pipe after
/// `, in_pipe=`, the id after `, pid=` and the start time after
/// `, timestamp=` (both reading back as numbers), and at the front
/// `ProcessInfo: exec_name=` and the executable.
pub proof fn lemma_process_text_fields(
    exec_name: Seq<char>,
    timestamp: u64,
    pid: u32,
    in_pipe: Seq<char>,
    out_pipe: Seq<char>,
    err_pipe: Seq<char>,
)
    ensures
        ({
            let t = process_text(exec_name, timestamp, pid, in_pipe, out_pipe, err_pipe);
            let e = ", err_pipe="@ + err_pipe;
            let t1 = drop_suffix(t, e);
            let o = ", out_pipe="@ + out_pipe;
            let t2 = drop_suffix(t1, o);
            let i = ", in_pipe="@ + in_pipe;
            let t3 = drop_suffix(t2, i);
            let p = ", pid="@ + decimal(pid as nat);
            let t4 = drop_suffix(t3, p);
            let s = ", timestamp="@ + decimal(timestamp as nat);
            &&& has_suffix(t, e)
            &&& has_suffix(t1, o)
            &&& has_suffix(t2, i)
            &&& has_suffix(t3, p)
            &&& has_suffix(t4, s)
            &&& drop_suffix(t4, s) == "ProcessInfo: exec_name="@ + exec_name
        }),
        parse_u64_spec(decimal(pid as nat)) == Some(pid as u64),
        parse_u64_spec(decimal(timestamp as nat)) == Some(timestamp),
{
    let t = process_text(exec_name, timestamp, pid, in_pipe, out_pipe, err_pipe);
    let t4 = "ProcessInfo: exec_name="@ + exec_name;
    let s = ", timestamp="@ + decimal(timestamp as nat);
    let t3 = t4 + s;
    let p = ", pid="@ + decimal(pid as nat);
    let t2 = t3 + p;
    let i = ", in_pipe="@ + in_pipe;
    let t1 = t2 + i;
    let o = ", out_pipe="@ + out_pipe;
    let t0 = t1 + o;
    let e = ", err_pipe="@ + err_pipe;
    assert(t =~= t0 + e);
    assert(t.skip(t.len() - e.len()) =~= e);
    assert(drop_suffix(t, e) =~= t0);
    assert(t0.skip(t0.len() - o.len()) =~= o);
    assert(drop_suffix(t0, o) =~= t1);
    assert(t1.skip(t1.len() - i.len()) =~= i);
    assert(drop_suffix(t1, i) =~= t2);
    assert(t2.skip(t2.len() - p.len()) =~= p);
    assert(drop_suffix(t2, p) =~= t3);
    assert(t3.skip(t3.len() - s.len()) =~= s);
    assert(drop_suffix(t3, s) =~= t4);
    lemma_parse_decimal(pid as u64);
    lemma_parse_decimal(timestamp);
}

/// The pipe names of a process running `exec_name`, started at
/// `timestamp`: input, output and error pipe.
pub fn pipe_names(exec_name: &str, timestamp: u64) -> (r: Option<(String, String, String)>)
    ensures
        match path_file_name(exec_name@) {
            None => r is None,
            Some(f) => r matches Some((i, o, e)) && i@ == pipe_name(f, timestamp, 'i') && o@
                == pipe_name(f, timestamp, 'o') && e@ == pipe_name(f, timestamp, 'e'),
        },
        r matches Some((i, o, e)) ==> {
            &&& i@.len() >= 2 && i@.last() == 'i' && i@[i@.len() - 2] == '.'
            &&& o@.len() >= 2 && o@.last() == 'o' && o@[o@.len() - 2] == '.'
            &&& e@.len() >= 2 && e@.last() == 'e' && e@[e@.len() - 2] == '.'
            &&& i@.drop_last() == o@.drop_last() && o@.drop_last() == e@.drop_last()
        },
{
    let fname = match file_name(exec_name) {
        Some(f) => f,
        None => return None,
    };
    let mut stem = fname.clone();
    push_decimal(&mut stem, timestamp);
    let mut i = stem.clone();
    push_char(&mut i, '.');
    push_char(&mut i, 'i');
    let mut o = stem.clone();
    push_char(&mut o, '.');
    push_char(&mut o, 'o');
    let mut e = stem;
    push_char(&mut e, '.');
    push_char(&mut e, 'e');
    assert(i@ =~= pipe_name(fname@, timestamp, 'i'));
    assert(o@ =~= pipe_name(fname@, timestamp, 'o'));
    assert(e@ =~= pipe_name(fname@, timestamp, 'e'));
    Some((i, o, e))
}

impl<C> ProcessInfo<C> {
    /// The record shown as text.
    pub fn describe(&self) -> (s: String)
        ensures
            s@ == process_text(
                self.exec_name@,
                self.timestamp,
                self.pid,
                self.in_pipe@,
                self.out_pipe@,
                self.err_pipe@,
            ),
    {
        let mut s = "ProcessInfo: exec_name=".to_owned();
        push_str(&mut s, self.exec_name.as_str());
        push_str(&mut s, ", timestamp=");
        push_decimal(&mut s, self.timestamp);
        push_str(&mut s, ", pid=");
        push_decimal(&mut s, self.pid as u64);
        push_str(&mut s, ", in_pipe=");
        push_str(&mut s, self.in_pipe.as_str());
        push_str(&mut s, ", out_pipe=");
        push_str(&mut s, self.out_pipe.as_str());
        push_str(&mut s, ", err_pipe=");
        push_str(&mut s, self.err_pipe.as_str());
        assert(s@ =~= process_text(
            self.exec_name@,
            self.timestamp,
            self.pid,
            self.in_pipe@,
            self.out_pipe@,
            self.err_pipe@,
        ));
        s
    }

    /// The pipe that output is read from: the error pipe when `error` is
    /// set, the output pipe otherwise.
    pub fn receive_pipe(&self, error: bool) -> (p: &String)
        ensures
            p@ == (if error {
                self.err_pipe@
            } else {
                self.out_pipe@
            }),
    {
        if error {
            &self.err_pipe
        } else {
            &self.out_pipe
        }
    }

    /// Takes over a fresh start of the same executable: its time, id, pipes
    /// and handle replace this record's; the executable stays.
    pub fn renew(&mut self, fresh: ProcessInfo<C>)
        ensures
            final(self).exec_name == old(self).exec_name,
            final(self).timestamp == fresh.timestamp,
            final(self).pid == fresh.pid,
            final(self).in_pipe == fresh.in_pipe,
            final(self).out_pipe == fresh.out_pipe,
            final(self).err_pipe == fresh.err_pipe,
            final(self).child == fresh.child,
    {
        self.timestamp = fresh.timestamp;
        self.pid = fresh.pid;
        self.in_pipe = fresh.in_pipe;
        self.out_pipe = fresh.out_pipe;
        self.err_pipe = fresh.err_pipe;
        self.child = fresh.child;
    }
}

} // verus!

verus! {

/// Whether parallel name and record sequences and a map agree: one record
/// per name, each name once, and the map holding exactly these.
pub open spec fn table_agrees<C>(
    names: Seq<String>,
    procs: Seq<ProcessInfo<C>>,
    model: Map<Seq<char>, ProcessInfo<C>>,
) -> bool {
    &&& names.len() == procs.len()
    &&& forall|i: int, j: int|
        0 <= i < names.len() && 0 <= j < names.len() && i != j ==> #[trigger] names[i]@
            != #[trigger] names[j]@
    &&& forall|i: int|
        0 <= i < names.len() ==> #[trigger] model.contains_key(names[i]@) && model[names[i]@]
            == procs[i]
    &&& forall|k: Seq<char>| #[trigger]
        model.contains_key(k) ==> exists|i: int| 0 <= i < names.len() && #[trigger] names[i]@ == k
}

/// The running processes, by the name they were started under. Each name
/// occurs once.
pub struct AppState<C> {
    names: Vec<String>,
    procs: Vec<ProcessInfo<C>>,
    model: Ghost<Map<Seq<char>, ProcessInfo<C>>>,
}

impl<C> View for AppState<C> {
    type V = Map<Seq<char>, ProcessInfo<C>>;

    closed spec fn view(&self) -> Map<Seq<char>, ProcessInfo<C>> {
        self.model@
    }
}

/// The domain of a table's map is the set of its names, which are distinct.
proof fn lemma_dom_is_names<C>(
    names: Seq<String>,
    procs: Seq<ProcessInfo<C>>,
    model: Map<Seq<char>, ProcessInfo<C>>,
)
    requires
        table_agrees(names, procs, model),
    ensures
        model.dom() == views(names).to_set(),
        views(names).no_duplicates(),
        model.dom().finite(),
        model.len() == names.len(),
{
    let vs = views(names);
    assert(model.dom() =~= vs.to_set()) by {
        assert forall|k: Seq<char>| model.dom().contains(k) implies vs.to_set().contains(k) by {
            let i = choose|i: int| 0 <= i < names.len() && #[trigger] names[i]@ == k;
            assert(vs[i] == k);
        }
        assert forall|k: Seq<char>| vs.to_set().contains(k) implies model.dom().contains(k) by {
            let i = choose|i: int| 0 <= i < vs.len() && vs[i] == k;
            assert(names[i]@ == k);
        }
    }
    assert(vs.no_duplicates()) by {
        assert forall|i: int, j: int|
            0 <= i < vs.len() && 0 <= j < vs.len() && i != j implies vs[i] != vs[j] by {
            assert(vs[i] == names[i]@);
            assert(vs[j] == names[j]@);
        }
    }
    vs.unique_seq_to_set();
}

impl<C> AppState<C> {
    /// The table's internal consistency, kept by every operation.
    #[verifier::type_invariant]
    spec fn wf(&self) -> bool {
        table_agrees(self.names@, self.procs@, self.model@)
    }

    /// An empty table.
    pub fn new() -> (s: Self)
        ensures
            s@ == Map::<Seq<char>, ProcessInfo<C>>::empty(),
    {
        AppState { names: Vec::new(), procs: Vec::new(), model: Ghost(Map::empty()) }
    }

    /// The position of `name` in the table.
    fn find(&self, name: &str) -> (r: Option<usize>)
        ensures
            match r {
                Some(i) => i < self.names@.len() && self.names@[i as int]@ == name@,
                None => !self@.contains_key(name@),
            },
    {
        proof {
            use_type_invariant(self);
        }
        let key = name.to_owned();
        let n = self.names.len();
        let mut i: usize = 0;
        while i < n
            invariant
                table_agrees(self.names@, self.procs@, self.model@),
                n == self.names@.len(),
                i <= n,
                key@ == name@,
                forall|j: int| 0 <= j < i ==> #[trigger] self.names@[j]@ != name@,
            decreases n - i,
        {
            if self.names[i] == key {
                return Some(i);
            }
            i = i + 1;
        }
        None
    }

    /// Whether a process runs under `name`.
    pub fn contains(&self, name: &str) -> (r: bool)
        ensures
            r == self@.contains_key(name@),
    {
        proof {
            use_type_invariant(self);
        }
        match self.find(name) {
            Some(i) => {
                assert(self.model@.contains_key(self.names@[i as int]@));
                true
            },
            None => false,
        }
    }

    /// The number of running processes.
    pub fn len(&self) -> (n: usize)
        ensures
            n as nat == self@.len(),
    {
        proof {
            use_type_invariant(self);
            lemma_dom_is_names(self.names@, self.procs@, self.model@);
        }
        self.names.len()
    }

    /// The record of the process running under `name`.
    pub fn get(&self, name: &str) -> (r: Option<&ProcessInfo<C>>)
        ensures
            match r {
                Some(p) => self@.contains_key(name@) && *p == self@[name@],
                None => !self@.contains_key(name@),
            },
    {
        proof {
            use_type_invariant(self);
        }
        match self.find(name) {
            Some(i) => {
                assert(self.model@.contains_key(self.names@[i as int]@));
                Some(&self.procs[i])
            },
            None => None,
        }
    }

    /// Records `info` as the process running under `name`, giving back the
    /// record it replaces.
    pub fn insert(&mut self, name: &str, info: ProcessInfo<C>) -> (prev: Option<ProcessInfo<C>>)
        ensures
            final(self)@ == old(self)@.insert(name@, info),
            prev == (if old(self)@.contains_key(name@) {
                Some(old(self)@[name@])
            } else {
                None
            }),
    {
        proof {
            use_type_invariant(&*self);
        }
        let found = self.find(name);
        let mut taken = AppState::new();
        std::mem::swap(self, &mut taken);
        let AppState { mut names, mut procs, model } = taken;
        let ghost m = model@;
        let ghost old_names = names@;
        let ghost old_procs = procs@;
        match found {
            Some(i) => {
                let old_info = procs.remove(i);
                procs.insert(i, info);
                let ghost nm = m.insert(name@, info);
                assert(procs@ =~= old_procs.update(i as int, info));
                assert(m.contains_key(old_names[i as int]@));
                assert forall|j: int|
                    0 <= j < names@.len() implies #[trigger] nm.contains_key(names@[j]@)
                    && nm[names@[j]@] == procs@[j] by {
                    assert(m.contains_key(old_names[j]@));
                    if j != i {
                        assert(names@[j]@ != names@[i as int]@);
                    }
                }
                assert forall|k: Seq<char>| #[trigger] nm.contains_key(k) implies exists|j: int|
                    0 <= j < names@.len() && #[trigger] names@[j]@ == k by {
                    if k != name@ {
                        assert(m.contains_key(k));
                        let j = choose|j: int|
                            0 <= j < old_names.len() && #[trigger] old_names[j]@ == k;
                        assert(names@[j]@ == k);
                    } else {
                        assert(names@[i as int]@ == k);
                    }
                }
                *self = AppState { names, procs, model: Ghost(nm) };
                Some(old_info)
            },
            None => {
                let key = name.to_owned();
                let ghost n = names@.len() as int;
                names.push(key);
                procs.push(info);
                let ghost nm = m.insert(name@, info);
                assert forall|a: int, b: int|
                    0 <= a < names@.len() && 0 <= b < names@.len() && a != b implies #[trigger] names@[a]@
                    != #[trigger] names@[b]@ by {
                    if a == n {
                        assert(m.contains_key(names@[b]@));
                    } else if b == n {
                        assert(m.contains_key(names@[a]@));
                    }
                }
                assert forall|j: int|
                    0 <= j < names@.len() implies #[trigger] nm.contains_key(names@[j]@)
                    && nm[names@[j]@] == procs@[j] by {
                    if j < n {
                        assert(m.contains_key(names@[j]@));
                    }
                }
                assert forall|k: Seq<char>| #[trigger] nm.contains_key(k) implies exists|j: int|
                    0 <= j < names@.len() && #[trigger] names@[j]@ == k by {
                    if k != name@ {
                        assert(m.contains_key(k));
                        let j = choose|j: int| 0 <= j < n && #[trigger] old_names[j]@ == k;
                        assert(names@[j]@ == k);
                    } else {
                        assert(names@[n]@ == k);
                    }
                }
                *self = AppState { names, procs, model: Ghost(nm) };
                None
            },
        }
    }

    /// Takes out the record of the process running under `name`.
    pub fn remove(&mut self, name: &str) -> (r: Option<ProcessInfo<C>>)
        ensures
            final(self)@ == old(self)@.remove(name@),
            r == (if old(self)@.contains_key(name@) {
                Some(old(self)@[name@])
            } else {
                None
            }),
    {
        proof {
            use_type_invariant(&*self);
        }
        let found = self.find(name);
        match found {
            Some(i) => {
                let mut taken = AppState::new();
                std::mem::swap(self, &mut taken);
                let AppState { mut names, mut procs, model } = taken;
                let ghost m = model@;
                let ghost old_names = names@;
                let ghost old_procs = procs@;
                let _ = names.remove(i);
                let info = procs.remove(i);
                let ghost nm = m.remove(name@);
                assert forall|a: int, b: int|
                    0 <= a < names@.len() && 0 <= b < names@.len() && a != b implies #[trigger] names@[a]@
                    != #[trigger] names@[b]@ by {
                    let a0 = if a < i {
                        a
                    } else {
                        a + 1
                    };
                    let b0 = if b < i {
                        b
                    } else {
                        b + 1
                    };
                    assert(names@[a] == old_names[a0]);
                    assert(names@[b] == old_names[b0]);
                }
                assert forall|j: int|
                    0 <= j < names@.len() implies #[trigger] nm.contains_key(names@[j]@)
                    && nm[names@[j]@] == procs@[j] by {
                    let j0 = if j < i {
                        j
                    } else {
                        j + 1
                    };
                    assert(names@[j] == old_names[j0]);
                    assert(procs@[j] == old_procs[j0]);
                    assert(old_names[j0]@ != old_names[i as int]@);
                    assert(m.contains_key(old_names[j0]@));
                }
                assert forall|k: Seq<char>| #[trigger] nm.contains_key(k) implies exists|j: int|
                    0 <= j < names@.len() && #[trigger] names@[j]@ == k by {
                    assert(m.contains_key(k));
                    let j0 = choose|j0: int|
                        0 <= j0 < old_names.len() && #[trigger] old_names[j0]@ == k;
                    assert(j0 != i);
                    let j = if j0 < i {
                        j0
                    } else {
                        j0 - 1
                    };
                    assert(names@[j] == old_names[j0]);
                }
                *self = AppState { names, procs, model: Ghost(nm) };
                Some(info)
            },
            None => {
                assert(self@.remove(name@) =~= self@);
                None
            },
        }
    }

    /// The names of all running processes, each once.
    pub fn names(&self) -> (r: Vec<String>)
        ensures
            views(r@).no_duplicates(),
            views(r@).to_set() == self@.dom(),
    {
        proof {
            use_type_invariant(self);
            lemma_dom_is_names(self.names@, self.procs@, self.model@);
        }
        let r = self.names.clone();
        assert(views(r@) =~= views(self.names@));
        r
    }
}

/// Restarting a process (taking its record out and recording the fresh
/// one under the same name) keeps the set of running names, and the name
/// then holds the fresh record.
pub proof fn lemma_restart_keeps_names<C>(
    m: Map<Seq<char>, ProcessInfo<C>>,
    name: Seq<char>,
    fresh: ProcessInfo<C>,
)
    requires
        m.contains_key(name),
    ensures
        m.remove(name).insert(name, fresh).dom() == m.dom(),
        m.remove(name).insert(name, fresh)[name] == fresh,
{
    assert(m.remove(name).insert(name, fresh).dom() =~= m.dom());
}

} // verus!
