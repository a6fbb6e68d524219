//! Paths inside a simulator project, as lists of path components.
use vstd::prelude::*;
use vstd::string::*;

verus! {

/// A marker that a path starts from a known directory.
#[derive(Debug, Clone, Copy, PartialEq, Eq, Structural)]
pub enum SimicsPathMarker {
    /// `%simics%`: the project's base directory.
    Simics,
    /// `%script%`: the directory of the running script.
    Script,
}

/// The text of a marker.
pub open spec fn marker_text(m: SimicsPathMarker) -> Seq<char> {
    match m {
        SimicsPathMarker::Simics => "%simics%"@,
        SimicsPathMarker::Script => "%script%"@,
    }
}

impl SimicsPathMarker {
    /// The text of the marker: `%simics%` or `%script%`.
    pub fn as_string(&self) -> (r: String)
        ensures
            r@ == marker_text(*self),
    {
        match self {
            SimicsPathMarker::Simics => String::from_str("%simics%"),
            SimicsPathMarker::Script => String::from_str("%script%"),
        }
    }
}

/// Why a path cannot be resolved.
#[derive(Debug, Clone, Copy, PartialEq, Eq, Structural)]
pub enum PathError {
    /// Paths relative to the running script are not supported.
    ScriptRelative,
}

/// All components but the first.
pub open spec fn tail_of(p: Seq<String>) -> Seq<String> {
    if p.len() == 0 {
        p
    } else {
        p.drop_first()
    }
}

/// A path, possibly relative to a marked directory. With a marker, `to` holds the components
/// after it.
#[derive(Debug, Clone)]
pub struct SimicsPath {
    pub from: Option<SimicsPathMarker>,
    pub to: Vec<String>,
}

fn copy_components(p: &Vec<String>, start: usize, out: &mut Vec<String>)
    requires
        start <= p@.len(),
    ensures
        final(out)@ == old(out)@ + p@.subrange(start as int, p@.len() as int),
{
    let mut i: usize = start;
    let ghost head = out@;
    while i < p.len()
        invariant
            start <= i <= p@.len(),
            head == old(out)@,
            out@ == head + p@.subrange(start as int, i as int),
        decreases p@.len() - i,
    {
        out.push(p[i].clone());
        proof {
            assert(out@ =~= head + p@.subrange(start as int, i + 1));
        }
        i = i + 1;
    }
}

impl SimicsPath {
    fn new(p: &Vec<String>, from: Option<SimicsPathMarker>) -> (r: SimicsPath)
        ensures
            r.from == from,
            from is Some ==> r.to@ == tail_of(p@),
            from is None ==> r.to@ == p@,
    {
        let mut to: Vec<String> = Vec::new();
        let start: usize = if from.is_some() && p.len() > 0 { 1 } else { 0 };
        copy_components(p, start, &mut to);
        proof {
            if start == 1 {
                assert(to@ =~= tail_of(p@));
            } else {
                assert(to@ =~= p@.subrange(0, p@.len() as int));
                assert(p@.subrange(0, p@.len() as int) =~= p@);
            }
        }
        SimicsPath { from, to }
    }

    /// A path under the project's base directory; the first component is the marker.
    pub fn simics(p: &Vec<String>) -> (r: SimicsPath)
        ensures
            r.from == Some(SimicsPathMarker::Simics),
            r.to@ == tail_of(p@),
    {
        SimicsPath::new(p, Some(SimicsPathMarker::Simics))
    }

    /// A path under the running script's directory; the first component is the marker.
    pub fn script(p: &Vec<String>) -> (r: SimicsPath)
        ensures
            r.from == Some(SimicsPathMarker::Script),
            r.to@ == tail_of(p@),
    {
        SimicsPath::new(p, Some(SimicsPathMarker::Script))
    }

    /// A plain path, kept as it is.
    pub fn path(p: &Vec<String>) -> (r: SimicsPath)
        ensures
            r.from is None,
            r.to@ == p@,
    {
        SimicsPath::new(p, None)
    }

    /// Reads a path whose first component may be a marker.
    pub fn from_components(p: &Vec<String>) -> (r: SimicsPath)
        ensures
            p@.len() > 0 && p@[0]@ == marker_text(SimicsPathMarker::Script) ==> r.from == Some(
                SimicsPathMarker::Script,
            ) && r.to@ == tail_of(p@),
            p@.len() > 0 && p@[0]@ == marker_text(SimicsPathMarker::Simics) ==> r.from == Some(
                SimicsPathMarker::Simics,
            ) && r.to@ == tail_of(p@),
            !(p@.len() > 0 && (p@[0]@ == marker_text(SimicsPathMarker::Script) || p@[0]@
                == marker_text(SimicsPathMarker::Simics))) ==> r.from is None && r.to@ == p@,
    {
        if p.len() > 0 {
            let script = SimicsPathMarker::Script.as_string();
            let simics = SimicsPathMarker::Simics.as_string();
            proof {
                reveal_strlit("%script%");
                reveal_strlit("%simics%");
                assert("%script%"@[2] != "%simics%"@[2]);
            }
            if p[0] == script {
                return SimicsPath::script(p);
            } else if p[0] == simics {
                return SimicsPath::simics(p);
            }
        }
        SimicsPath::path(p)
    }

    /// The path resolved against the project's base directory `base`, given in canonical
    /// form: a `%simics%` path is `base` followed by its components, a plain path is itself,
    /// and a `%script%` path is refused.
    pub fn canonicalize(&self, base: &Vec<String>) -> (r: Result<Vec<String>, PathError>)
        ensures
            self.from == Some(SimicsPathMarker::Script) ==> r == Err::<Vec<String>, PathError>(
                PathError::ScriptRelative,
            ),
            self.from == Some(SimicsPathMarker::Simics) ==> (r matches Ok(v) && v@ == base@
                + self.to@),
            self.from is None ==> (r matches Ok(v) && v@ == self.to@),
    {
        match self.from {
            Some(SimicsPathMarker::Script) => Err(PathError::ScriptRelative),
            Some(SimicsPathMarker::Simics) => {
                let mut out: Vec<String> = Vec::new();
                copy_components(base, 0, &mut out);
                copy_components(&self.to, 0, &mut out);
                proof {
                    assert(base@.subrange(0, base@.len() as int) =~= base@);
                    assert(self.to@.subrange(0, self.to@.len() as int) =~= self.to@);
                }
                Ok(out)
            },
            None => {
                let mut out: Vec<String> = Vec::new();
                copy_components(&self.to, 0, &mut out);
                proof {
                    assert(self.to@.subrange(0, self.to@.len() as int) =~= self.to@);
                }
                Ok(out)
            },
        }
    }
}

/// Where a project lives, and whether it is a temporary directory to remove afterwards.
#[derive(Debug, Clone)]
pub struct ProjectPath {
    pub path: Vec<String>,
    pub temporary: bool,
}

impl ProjectPath {
    /// An existing directory, which is not removed afterwards.
    pub fn from_path(path: Vec<String>) -> (r: ProjectPath)
        ensures
            r.path@ == path@,
            !r.temporary,
    {
        ProjectPath { path, temporary: false }
    }

    /// A freshly made temporary directory, which is removed afterwards.
    pub fn temporary(path: Vec<String>) -> (r: ProjectPath)
        ensures
            r.path@ == path@,
            r.temporary,
    {
        ProjectPath { path, temporary: true }
    }
}

} // verus!
