pub mod archive;
pub mod cache;
pub mod digest;
pub mod metadata;

pub use archive::{
    checked_payload, get_file_content, lemma_absent_path_not_found, lemma_listed_entry_extracts, is_metadata_path, list_files, listing_from_headers,
    ArchiveError, EntryHeader, SnapEntry,
};
pub use metadata::{
    default_format_version, get_metadata, parse_metadata, resolve_metadata, RawField, RawMetadata,
    VeghMetadata,
};
pub use digest::{lemma_digest_ignores_chunking, VeghStreamingHasher};
pub use cache::{check_cache_hit, create_empty_cache, FileCacheEntry, VeghCache};
