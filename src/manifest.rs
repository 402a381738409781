use vstd::prelude::*;

verus! {

/// One file that must be present in an extracted release.
#[derive(Debug, Clone)]
pub struct FileEntry {
    pub name: String,
}

/// The optional redistributable that a release may ask for.
#[derive(Debug, Clone)]
pub struct VcRedist {
    pub required: bool,
    pub url: String,
}

/// Advisory environment requirements of a release.
#[derive(Debug, Clone)]
pub struct Prerequisites {
    pub windows_version_min: Option<String>,
    pub vc_redist: Option<VcRedist>,
}

impl Default for Prerequisites {
    fn default() -> (r: Prerequisites)
        ensures
            r.windows_version_min is None,
            r.vc_redist is None,
    {
        Prerequisites { windows_version_min: None, vc_redist: None }
    }
}

/// Release metadata: what to download, how to check it, and what it must hold.
#[derive(Debug, Clone)]
pub struct Manifest {
    pub version: String,
    pub release_zip_url: String,
    pub sha256: String,
    pub files: Vec<FileEntry>,
    pub prerequisites: Prerequisites,
    pub license_check_url: Option<String>,
}

/// Why a manifest is incomplete. Each missing piece has its own variant.
#[derive(Debug, Clone, Copy, PartialEq, Eq, Structural)]
pub enum ValidationError {
    EmptyVersion,
    EmptyReleaseUrl,
    EmptyDigest,
    NoFiles,
    EmptyFileName { index: usize },
}

/// A finding of the prerequisite check. None of them blocks an install.
#[derive(Debug, Clone)]
pub enum Advisory {
    /// The release names a minimum OS version; the running version should be probed and logged.
    MinimumOsVersion { minimum: String },
    /// The release needs a redistributable, available at `url`.
    Redistributable { url: String },
}

/// `i` is the first file entry with an empty name.
pub open spec fn first_empty_name(files: Seq<FileEntry>, i: int) -> bool {
    &&& 0 <= i < files.len()
    &&& files[i].name@.len() == 0
    &&& forall|j: int| 0 <= j < i ==> #[trigger] files[j].name@.len() > 0
}

impl Manifest {
    /// Every required field is present and every file entry is named.
    pub open spec fn is_valid(&self) -> bool {
        &&& self.version@.len() > 0
        &&& self.release_zip_url@.len() > 0
        &&& self.sha256@.len() > 0
        &&& self.files@.len() > 0
        &&& forall|j: int| 0 <= j < self.files@.len() ==> #[trigger] self.files@[j].name@.len() > 0
    }

    /// What `validate` reports, checking the fields in declaration order.
    pub open spec fn validation(&self) -> Result<(), ValidationError> {
        if self.version@.len() == 0 {
            Err(ValidationError::EmptyVersion)
        } else if self.release_zip_url@.len() == 0 {
            Err(ValidationError::EmptyReleaseUrl)
        } else if self.sha256@.len() == 0 {
            Err(ValidationError::EmptyDigest)
        } else if self.files@.len() == 0 {
            Err(ValidationError::NoFiles)
        } else if exists|i: int| first_empty_name(self.files@, i) {
            let i = choose|i: int| first_empty_name(self.files@, i);
            Err(ValidationError::EmptyFileName { index: i as usize })
        } else {
            Ok(())
        }
    }

    /// The advisories that the prerequisites call for, OS version first.
    pub open spec fn advisories(&self) -> Seq<Advisory> {
        let os = match self.prerequisites.windows_version_min {
            Some(v) => seq![Advisory::MinimumOsVersion { minimum: v }],
            None => Seq::empty(),
        };
        let redist = match self.prerequisites.vc_redist {
            Some(vc) => if vc.required {
                seq![Advisory::Redistributable { url: vc.url }]
            } else {
                Seq::empty()
            },
            None => Seq::empty(),
        };
        os + redist
    }

    /// Checks that the manifest is complete enough to act on.
    pub fn validate(&self) -> (r: Result<(), ValidationError>)
        ensures
            r == self.validation(),
            r is Ok <==> self.is_valid(),
    {
        if self.version.as_str().is_empty() {
            return Err(ValidationError::EmptyVersion);
        }
        if self.release_zip_url.as_str().is_empty() {
            return Err(ValidationError::EmptyReleaseUrl);
        }
        if self.sha256.as_str().is_empty() {
            return Err(ValidationError::EmptyDigest);
        }
        if self.files.len() == 0 {
            return Err(ValidationError::NoFiles);
        }
        let mut i: usize = 0;
        while i < self.files.len()
            invariant
                self.version@.len() > 0,
                self.release_zip_url@.len() > 0,
                self.sha256@.len() > 0,
                self.files@.len() > 0,
                i <= self.files@.len(),
                forall|j: int| 0 <= j < i ==> #[trigger] self.files@[j].name@.len() > 0,
            decreases self.files@.len() - i,
        {
            if self.files[i].name.as_str().is_empty() {
                proof {
                    assert(first_empty_name(self.files@, i as int));
                    let k = choose|k: int| first_empty_name(self.files@, k);
                    assert(k == i as int) by {
                        if k < i as int {
                            assert(self.files@[k].name@.len() > 0);
                        } else if k > i as int {
                            assert(self.files@[i as int].name@.len() > 0);
                        }
                    }
                }
                return Err(ValidationError::EmptyFileName { index: i });
            }
            i += 1;
        }
        assert(!exists|k: int| first_empty_name(self.files@, k));
        Ok(())
    }

    /// Lists what the advisory prerequisite check should report. Nothing here
    /// fails: prerequisite mismatches are informational.
    pub fn check_prerequisites(&self) -> (r: Vec<Advisory>)
        ensures
            r@ == self.advisories(),
    {
        let mut r: Vec<Advisory> = Vec::new();
        match &self.prerequisites.windows_version_min {
            Some(v) => {
                r.push(Advisory::MinimumOsVersion { minimum: v.clone() });
            },
            None => {},
        }
        match &self.prerequisites.vc_redist {
            Some(vc) => {
                if vc.required {
                    r.push(Advisory::Redistributable { url: vc.url.clone() });
                }
            },
            None => {},
        }
        assert(r@ =~= self.advisories());
        r
    }
}

/// Validation rejects each kind of incompleteness on its own, with its own
/// error: an empty version, an empty archive URL, an empty digest, an empty
/// file list, and an unnamed file entry.
pub proof fn lemma_validation_distinct(m: Manifest)
    ensures
        m.version@.len() == 0 ==> m.validation() == Err::<(), ValidationError>(ValidationError::EmptyVersion),
        m.version@.len() > 0 && m.release_zip_url@.len() == 0 ==> m.validation() == Err::<(), ValidationError>(ValidationError::EmptyReleaseUrl),
        m.version@.len() > 0 && m.release_zip_url@.len() > 0 && m.sha256@.len() == 0
            ==> m.validation() == Err::<(), ValidationError>(ValidationError::EmptyDigest),
        m.version@.len() > 0 && m.release_zip_url@.len() > 0 && m.sha256@.len() > 0 && m.files@.len() == 0
            ==> m.validation() == Err::<(), ValidationError>(ValidationError::NoFiles),
        forall|i: int|
            m.version@.len() > 0 && m.release_zip_url@.len() > 0 && m.sha256@.len() > 0
                && #[trigger] first_empty_name(m.files@, i)
                ==> m.validation() == Err::<(), ValidationError>(ValidationError::EmptyFileName { index: i as usize }),
{
    assert forall|i: int|
        m.version@.len() > 0 && m.release_zip_url@.len() > 0 && m.sha256@.len() > 0
            && #[trigger] first_empty_name(m.files@, i)
            implies m.validation() == Err::<(), ValidationError>(ValidationError::EmptyFileName { index: i as usize }) by {
        let k = choose|k: int| first_empty_name(m.files@, k);
        assert(k == i) by {
            if k < i {
                assert(m.files@[k].name@.len() > 0);
            } else if k > i {
                assert(m.files@[i].name@.len() > 0);
            }
        }
    }
}

} // verus!
