# city3d_stac

STAC (SpatioTemporal Asset Catalog) metadata for 3D city models —
CityJSON, CityJSON Text Sequences, CityGML, FlatCityBuf, and ZIP or gzip
archives of them — with the library's logic verified by Verus.

## Layout

- `src/` — the verified library. Each public function states in its contract
  what it returns; the public `law_*` proof functions state the properties
  that hold across functions (merge order independence of collection
  summaries, command-line precedence in configurations, idempotence of
  folder-name sanitizing and of catalog relinking, round trips of CRS
  identifiers, distinct ids for same-named files, and others).
  - `text`, `sorted`, `lines`: strings, sorted string sets, line splitting.
  - `crs`, `epsg`: coordinate reference systems and EPSG code handling.
  - `model`, `reader`, `decode`, `citygml`, `zip`, `fcb`: what each reader
    reports of a dataset; `decode` hands JSON and CityJSON text to
    `serde_json` and `cjseq` and keeps what the readers need of the result.
  - `normalize`: CityJSON text read as JSON, its integer `version` and `lod`
    and URN reference system rewritten, then decoded; reference systems that
    `cjseq` cannot read are refused.
  - `attributes`: attribute schemas inferred from observed JSON kinds.
  - `input`, `traversal`: choice of reader, input discovery and glob patterns.
  - `accumulator`, `item`, `stac`, `catalog`, `plan`, `layout`: STAC items,
    collections and catalogs — summaries, links, ids and file names.
  - `config`, `validation`: configuration merging and dry-run validation.
  - `checksum`, `memory`, `progress`, `error`: file checksums, memory log
    lines, summary tables, errors.
- `tests/` — tests of the library.
- `app/` — the `citystac` command-line program: file and archive I/O, JSON,
  XML and FlatCityBuf decoding, floating-point bounding boxes and their
  reprojection, and the command handlers, which take their plans, ids, file
  names, per-source actions and summaries from the library.
  Remote inputs (HTTP, S3, Azure, GCS) and GeoParquet output are not
  available in this build: the program refuses them with an error.
