# system

System level helpers for a migration tool, verified with Verus.

* `src/stat.rs`: file status and file types
* `src/error.rs`: errors, and what failed system calls become
* `src/text.rs`: texts for messages
* `src/path.rs`: paths as raw bytes
* `src/number.rs`: the numbers that paths below `/proc` end in
* `src/calls.rs`: the outcome of system calls on files
* `src/uname.rs`: the names of the system
* `src/listing.rs`: what reading directories and links gives back
* `src/inodes.rs`, `src/copy.rs`: copying directory trees
* `src/copy_laws.rs`: what holds of each copy
* `src/copy_tree.rs`, `src/copy_done.rs`: what a copy makes of a tree, or of a part of it
* `src/copy_links.rs`: hard links across file systems
* `src/fuser.rs`: signalling the processes that keep a path open
* `src/fuser_laws.rs`, `src/fuser_done.rs`: what holds of such searches as a whole
* `app/lib.rs`: the system calls around the library
