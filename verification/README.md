# tram_btrfs

A snapshot manager for btrfs partitions: snapshots are kept in groups under
`tram_btrfs/snapshot_groups/<group>/<type>/<date>_<time>/<subvolume>` on the
partition, and a terminal interface shows and manages them.

- `src/` is the library, written in Verus. It holds the snapshot groups and
  their snapshots, the placing of the paths that `btrfs subvolume list`
  reports, configuration state, path and text handling, and the decisions of
  the terminal interface (key bindings, table selections, layout). Every
  function there is proved against its contract, except the few marked
  `#[verifier::external_body]`: each makes one call into an outside crate
  (`regex`, `nix`, `time`, `ratatui`) or into std's `Debug` for paths, and
  its contract, stated in its doc comment, is trusted rather than proved.
- `app/` is the program around it: command line, configuration file,
  running `btrfs` and `findmnt`, mounting, locking, moving snapshots on disk
  and drawing the interface.
- `tests/` exercises the library on concrete values.
