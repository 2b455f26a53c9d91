//! The options of a remapping run, with their defaults and setters.
use crate::mappings::{DeobfMappingsType, ModLoader};
use vstd::prelude::*;
use vstd::string::StringExecFns;

verus! {

/// The options of a remapping run.
pub struct RebornCliArgs {
    /// Verbosity level: 0 to 3; higher values act as 3.
    pub verbose: u8,
    /// Whether debug output is on.
    pub debug: bool,
    /// Whether each class is printed after reading, with debug output on.
    pub print_class: bool,
    /// Whether each constant pool is printed after reading, with debug output on.
    pub print_cpool: bool,
    /// Whether the code of each method is printed after reading, with debug output on.
    pub print_code: bool,
    /// The game version that selects the default mappings.
    pub game_version: String,
    /// The mod loader to remap for.
    pub mod_loader: ModLoader,
    /// Where the mappings versions come from.
    pub mappings_type: DeobfMappingsType,
    /// The mappings channel, the path part after the version (`stable`, `official`, `parchment`).
    pub mappings_channel: String,
    /// The mappings version, the path part after the channel.
    pub mappings_version: String,
    /// Extra mappings sources, `<target>:<source>`, laid over the default mappings.
    pub extra_mappings: Vec<String>,
    /// Whether mappings fetched from the web are cached.
    pub cache_web_files: bool,
    /// Whether the known and downloaded mappings versions are shown.
    pub show_versions: bool,
    /// Whether the given path is used as cache directory for this run.
    pub cache_dir: bool,
    /// A path to keep as cache directory.
    pub set_cache_dir: String,
    /// Whether the cache directory is cleaned.
    pub clean_cache_dir: bool,
    /// Packages to remap; none means every class.
    pub packages_filter: Vec<String>,
    /// Input jars or directories of jars.
    pub input: Vec<String>,
    /// Output directories.
    pub output: Option<Vec<String>>,
    /// Whether remapping is skipped (to recompress only).
    pub no_deobf: bool,
    /// Whether progress is shown.
    pub progress: bool,
    /// Whether resources other than access transformers and the manifest are left out.
    pub strip_resources: bool,
    /// Deflate level for class files; 0 means the default level.
    pub deflate_compress_level: i64,
    /// Whether resources are compressed too.
    pub compress_resources: bool,
}

impl RebornCliArgs {
    /// Sets `verbose`; every other option stays as it was.
    pub fn set_verbose(&mut self, verbose: u8) -> (r: &mut Self)
        ensures
            *r == (RebornCliArgs { verbose, ..*old(self) }),
            *final(self) == *final(r),
    {
        self.verbose = verbose;
        self
    }

    /// Sets `debug`; every other option stays as it was.
    pub fn set_debug(&mut self, debug: bool) -> (r: &mut Self)
        ensures
            *r == (RebornCliArgs { debug, ..*old(self) }),
            *final(self) == *final(r),
    {
        self.debug = debug;
        self
    }

    /// Sets `print_class`; every other option stays as it was.
    pub fn set_print_class(&mut self, print_class: bool) -> (r: &mut Self)
        ensures
            *r == (RebornCliArgs { print_class, ..*old(self) }),
            *final(self) == *final(r),
    {
        self.print_class = print_class;
        self
    }

    /// Sets `print_cpool`; every other option stays as it was.
    pub fn set_print_cpool(&mut self, print_cpool: bool) -> (r: &mut Self)
        ensures
            *r == (RebornCliArgs { print_cpool, ..*old(self) }),
            *final(self) == *final(r),
    {
        self.print_cpool = print_cpool;
        self
    }

    /// Sets `print_code`; every other option stays as it was.
    pub fn set_print_code(&mut self, print_code: bool) -> (r: &mut Self)
        ensures
            *r == (RebornCliArgs { print_code, ..*old(self) }),
            *final(self) == *final(r),
    {
        self.print_code = print_code;
        self
    }

    /// Sets `game_version`; every other option stays as it was.
    pub fn set_game_version(&mut self, game_version: String) -> (r: &mut Self)
        ensures
            *r == (RebornCliArgs { game_version, ..*old(self) }),
            *final(self) == *final(r),
    {
        self.game_version = game_version;
        self
    }

    /// Sets `mod_loader`; every other option stays as it was.
    pub fn set_mod_loader(&mut self, mod_loader: ModLoader) -> (r: &mut Self)
        ensures
            *r == (RebornCliArgs { mod_loader, ..*old(self) }),
            *final(self) == *final(r),
    {
        self.mod_loader = mod_loader;
        self
    }

    /// Sets `mappings_type`; every other option stays as it was.
    pub fn set_mappings_type(&mut self, mappings_type: DeobfMappingsType) -> (r: &mut Self)
        ensures
            *r == (RebornCliArgs { mappings_type, ..*old(self) }),
            *final(self) == *final(r),
    {
        self.mappings_type = mappings_type;
        self
    }

    /// Sets `mappings_channel`; every other option stays as it was.
    pub fn set_mappings_channel(&mut self, mappings_channel: String) -> (r: &mut Self)
        ensures
            *r == (RebornCliArgs { mappings_channel, ..*old(self) }),
            *final(self) == *final(r),
    {
        self.mappings_channel = mappings_channel;
        self
    }

    /// Sets `mappings_version`; every other option stays as it was.
    pub fn set_mappings_version(&mut self, mappings_version: String) -> (r: &mut Self)
        ensures
            *r == (RebornCliArgs { mappings_version, ..*old(self) }),
            *final(self) == *final(r),
    {
        self.mappings_version = mappings_version;
        self
    }

    /// Sets `extra_mappings`; every other option stays as it was.
    pub fn set_extra_mappings(&mut self, extra_mappings: Vec<String>) -> (r: &mut Self)
        ensures
            *r == (RebornCliArgs { extra_mappings, ..*old(self) }),
            *final(self) == *final(r),
    {
        self.extra_mappings = extra_mappings;
        self
    }

    /// Sets `cache_web_files`; every other option stays as it was.
    pub fn set_cache_web_files(&mut self, cache_web_files: bool) -> (r: &mut Self)
        ensures
            *r == (RebornCliArgs { cache_web_files, ..*old(self) }),
            *final(self) == *final(r),
    {
        self.cache_web_files = cache_web_files;
        self
    }

    /// Sets `show_versions`; every other option stays as it was.
    pub fn set_show_versions(&mut self, show_versions: bool) -> (r: &mut Self)
        ensures
            *r == (RebornCliArgs { show_versions, ..*old(self) }),
            *final(self) == *final(r),
    {
        self.show_versions = show_versions;
        self
    }

    /// Sets `cache_dir`; every other option stays as it was.
    pub fn set_cache_dir(&mut self, cache_dir: bool) -> (r: &mut Self)
        ensures
            *r == (RebornCliArgs { cache_dir, ..*old(self) }),
            *final(self) == *final(r),
    {
        self.cache_dir = cache_dir;
        self
    }

    /// Sets `set_cache_dir`; every other option stays as it was.
    pub fn set_set_cache_dir(&mut self, set_cache_dir: String) -> (r: &mut Self)
        ensures
            *r == (RebornCliArgs { set_cache_dir, ..*old(self) }),
            *final(self) == *final(r),
    {
        self.set_cache_dir = set_cache_dir;
        self
    }

    /// Sets `clean_cache_dir`; every other option stays as it was.
    pub fn set_clean_cache_dir(&mut self, clean_cache_dir: bool) -> (r: &mut Self)
        ensures
            *r == (RebornCliArgs { clean_cache_dir, ..*old(self) }),
            *final(self) == *final(r),
    {
        self.clean_cache_dir = clean_cache_dir;
        self
    }

    /// Sets `packages_filter`; every other option stays as it was.
    pub fn set_packages_filter(&mut self, packages_filter: Vec<String>) -> (r: &mut Self)
        ensures
            *r == (RebornCliArgs { packages_filter, ..*old(self) }),
            *final(self) == *final(r),
    {
        self.packages_filter = packages_filter;
        self
    }

    /// Sets `input`; every other option stays as it was.
    pub fn set_input(&mut self, input: Vec<String>) -> (r: &mut Self)
        ensures
            *r == (RebornCliArgs { input, ..*old(self) }),
            *final(self) == *final(r),
    {
        self.input = input;
        self
    }

    /// Sets `output`; every other option stays as it was.
    pub fn set_output(&mut self, output: Option<Vec<String>>) -> (r: &mut Self)
        ensures
            *r == (RebornCliArgs { output, ..*old(self) }),
            *final(self) == *final(r),
    {
        self.output = output;
        self
    }

    /// Sets `no_deobf`; every other option stays as it was.
    pub fn set_no_deobf(&mut self, no_deobf: bool) -> (r: &mut Self)
        ensures
            *r == (RebornCliArgs { no_deobf, ..*old(self) }),
            *final(self) == *final(r),
    {
        self.no_deobf = no_deobf;
        self
    }

    /// Sets `progress`; every other option stays as it was.
    pub fn set_progress(&mut self, progress: bool) -> (r: &mut Self)
        ensures
            *r == (RebornCliArgs { progress, ..*old(self) }),
            *final(self) == *final(r),
    {
        self.progress = progress;
        self
    }

    /// Sets `strip_resources`; every other option stays as it was.
    pub fn set_strip_resources(&mut self, strip_resources: bool) -> (r: &mut Self)
        ensures
            *r == (RebornCliArgs { strip_resources, ..*old(self) }),
            *final(self) == *final(r),
    {
        self.strip_resources = strip_resources;
        self
    }

    /// Sets `deflate_compress_level`; every other option stays as it was.
    pub fn set_deflate_compress_level(&mut self, deflate_compress_level: i64) -> (r: &mut Self)
        ensures
            *r == (RebornCliArgs { deflate_compress_level, ..*old(self) }),
            *final(self) == *final(r),
    {
        self.deflate_compress_level = deflate_compress_level;
        self
    }

    /// The deflate level to use, or `None` for the default level (when the level is 0).
    pub fn get_deflate_compress_level(&self) -> (r: Option<i64>)
        ensures
            r == (if self.deflate_compress_level == 0 { None } else { Some(self.deflate_compress_level) }),
    {
        match self.deflate_compress_level {
            0 => None,
            x => Some(x),
        }
    }

    /// Sets `compress_resources`; every other option stays as it was.
    pub fn set_compress_resources(&mut self, compress_resources: bool) -> (r: &mut Self)
        ensures
            *r == (RebornCliArgs { compress_resources, ..*old(self) }),
            *final(self) == *final(r),
    {
        self.compress_resources = compress_resources;
        self
    }

}

impl Default for RebornCliArgs {
    /// Game version `1.7.10`, mod loader Forge, mappings from `versions.json`
    /// in channel `stable` version `12`, an empty list of output directories,
    /// deflate level 2; every flag off, every other list empty and no cache directory.
    fn default() -> (r: Self)
        ensures
            r.verbose == 0,
            !r.debug && !r.print_class && !r.print_cpool && !r.print_code,
            r.game_version@ == "1.7.10"@,
            r.mod_loader == ModLoader::Forge,
            r.mappings_type == DeobfMappingsType::VersionsJSON,
            r.mappings_channel@ == "stable"@,
            r.mappings_version@ == "12"@,
            r.extra_mappings@.len() == 0,
            !r.cache_web_files && !r.show_versions && !r.cache_dir && !r.clean_cache_dir,
            r.set_cache_dir@ == ""@,
            r.packages_filter@.len() == 0,
            r.input@.len() == 0,
            r.output matches Some(v) && v@.len() == 0,
            !r.no_deobf && !r.progress && !r.strip_resources && !r.compress_resources,
            r.deflate_compress_level == 2,
    {
        RebornCliArgs {
            verbose: 0,
            debug: false,
            print_class: false,
            print_cpool: false,
            print_code: false,
            game_version: String::from_str("1.7.10"),
            mod_loader: ModLoader::Forge,
            mappings_type: DeobfMappingsType::VersionsJSON,
            mappings_channel: String::from_str("stable"),
            mappings_version: String::from_str("12"),
            extra_mappings: Vec::new(),
            cache_web_files: false,
            show_versions: false,
            cache_dir: false,
            set_cache_dir: String::from_str(""),
            clean_cache_dir: false,
            packages_filter: Vec::new(),
            input: Vec::new(),
            output: Some(Vec::new()),
            no_deobf: false,
            progress: false,
            strip_resources: false,
            deflate_compress_level: 2,
            compress_resources: false,
        }
    }
}

} // verus!
