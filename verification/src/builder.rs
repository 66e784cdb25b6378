//! Build configuration data: what to build, where to put it, and how the
//! worker container is set up.

use vstd::prelude::*;

verus! {

/// A host directory mounted into the worker container.
#[derive(Debug, Clone, PartialEq, Eq)]
pub struct DirectoryMount {
    pub host: String,
    pub guest: String,
    pub readonly: bool,
}

/// How a worker container is created.
#[derive(Debug, Clone, PartialEq, Eq)]
pub struct ContainerOptions {
    pub image_name: String,
    pub container_name: String,
    pub mounts: Option<Vec<DirectoryMount>>,
    pub cmd: Option<Vec<String>>,
    pub env: Option<Vec<String>>,
    pub volumes: Option<Vec<String>>,
    pub entrypoint: Option<Vec<String>>,
}

impl Default for ContainerOptions {
    /// Empty names and nothing mounted or overridden.
    fn default() -> (r: Self)
        ensures
            r.image_name@ == Seq::<char>::empty(),
            r.container_name@ == Seq::<char>::empty(),
            r.mounts is None,
            r.cmd is None,
            r.env is None,
            r.volumes is None,
            r.entrypoint is None,
    {
        ContainerOptions {
            image_name: String::new(),
            container_name: String::new(),
            mounts: None,
            cmd: None,
            env: None,
            volumes: None,
            entrypoint: None,
        }
    }
}

/// Everything a packaged-image build needs to know.
#[derive(Debug, Clone)]
pub struct ImageBuilder {
    pub image_name: String,
    pub output: Option<String>,
    pub force_overwrite: bool,
    pub env: Vec<String>,
    pub volumes: Vec<String>,
    pub entrypoint: Option<String>,
    pub compression_method: String,
    pub compression_level: Option<u32>,
}

impl ImageBuilder {
    /// Records the build configuration as given.
    pub fn new(
        image_name: &str,
        output: Option<String>,
        force_overwrite: bool,
        env: Vec<String>,
        volumes: Vec<String>,
        entrypoint: Option<String>,
        compression_method: String,
        compression_level: Option<u32>,
    ) -> (r: Self)
        ensures
            r.image_name@ == image_name@,
            r.output == output,
            r.force_overwrite == force_overwrite,
            r.env == env,
            r.volumes == volumes,
            r.entrypoint == entrypoint,
            r.compression_method == compression_method,
            r.compression_level == compression_level,
    {
        ImageBuilder {
            image_name: image_name.to_owned(),
            output,
            force_overwrite,
            env,
            volumes,
            entrypoint,
            compression_method,
            compression_level,
        }
    }
}

} // verus!
