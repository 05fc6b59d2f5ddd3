use vstd::prelude::*;

verus! {

/// A Java runtime found on the host, with the parts of its version the
/// launcher reads.
#[derive(Debug, Clone)]
pub struct JavaInstallation {
    pub path: String,
    pub major: u64,
    pub minor: u64,
    pub patch: u64,
}

/// The Java runtimes of the host, newest first.
#[derive(Debug, Clone)]
pub struct JavaManager {
    installations: Vec<JavaInstallation>,
}

/// Index of the first installation whose major version, cut to 16 bits, is `major`.
pub open spec fn first_with_major(list: Seq<JavaInstallation>, major: u16) -> Option<int>
    decreases list.len(),
{
    if list.len() == 0 {
        None
    } else {
        match first_with_major(list.drop_last(), major) {
            Some(i) => Some(i),
            None => if list.last().major as u16 == major {
                Some(list.len() - 1)
            } else {
                None
            },
        }
    }
}

proof fn lemma_first_with_major(list: Seq<JavaInstallation>, major: u16, i: int)
    requires
        0 <= i <= list.len(),
        forall|j: int| 0 <= j < i ==> #[trigger] list[j].major as u16 != major,
    ensures
        i < list.len() && list[i].major as u16 == major ==> first_with_major(list, major) == Some(i),
        i == list.len() ==> first_with_major(list, major) is None,
    decreases list.len(),
{
    if list.len() > 0 {
        if i < list.len() {
            if i < list.len() - 1 {
                lemma_first_with_major(list.drop_last(), major, i);
            } else {
                lemma_first_with_major(list.drop_last(), major, i);
            }
        } else {
            lemma_first_with_major(list.drop_last(), major, i - 1);
        }
    }
}

impl JavaManager {
    pub closed spec fn spec_list(&self) -> Seq<JavaInstallation> {
        self.installations@
    }

    /// A manager over a list of installations that is already sorted newest first.
    pub fn new(installations: Vec<JavaInstallation>) -> (r: JavaManager)
        ensures
            r.spec_list() == installations@,
    {
        JavaManager { installations }
    }

    /// The newest installation: the first of the list.
    pub fn latest(&self) -> (r: Option<&JavaInstallation>)
        ensures
            r is Some == (self.spec_list().len() > 0),
            r matches Some(j) ==> *j == self.spec_list()[0],
    {
        if self.installations.len() == 0 {
            None
        } else {
            Some(&self.installations[0])
        }
    }

    /// All installations, newest first.
    pub fn list(&self) -> (r: &Vec<JavaInstallation>)
        ensures
            r@ == self.spec_list(),
    {
        &self.installations
    }

    /// The newest installation of the given major version.
    pub fn find_major(&self, major: u16) -> (r: Option<&JavaInstallation>)
        ensures
            r is Some == first_with_major(self.spec_list(), major) is Some,
            r matches Some(j) ==> *j == self.spec_list()[first_with_major(
                self.spec_list(),
                major,
            )->0],
    {
        let mut i: usize = 0;
        while i < self.installations.len()
            invariant
                i <= self.installations@.len(),
                forall|j: int|
                    0 <= j < i ==> #[trigger] self.installations@[j].major as u16 != major,
            decreases self.installations.len() - i,
        {
            if self.installations[i].major as u16 == major {
                proof {
                    lemma_first_with_major(self.installations@, major, i as int);
                }
                return Some(&self.installations[i]);
            }
            i = i + 1;
        }
        proof {
            lemma_first_with_major(self.installations@, major, i as int);
        }
        None
    }
}

} // verus!
