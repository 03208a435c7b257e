# Bouwer

A desktop front end for the OpenWrt image builders. It lists versions and device
profiles, downloads the image builder of a target with Podman or Docker, builds
an image with the chosen packages, takes over the packages of a running device,
and saves and loads presets.

## Layout

- `src/` is the library. It holds the rules of the application, and Verus proves
  that each function does what its contract says.
  - `text/` reads, splits, compares and sorts text.
  - `domain/` holds versions, targets, image tags, packages, profiles and
    presets, with the texts they are read from and written as.
  - `search.rs` is a prefix index over a finite state transducer.
  - `data.rs` and `profiles.rs` work on records whose values are all text.
  - `builder.rs`, `containers.rs`, `device.rs`, `ssh.rs`, `cache.rs`,
    `client.rs` and `config.rs` decide what is asked of the outside world, and
    read the replies.
  - `progress.rs` compares how far tasks are.
  - `state.rs` is what the window shows; `session.rs` is what the application
    keeps in mind.
  - `workflow/` has the steps of each request: what the window shows, and what
    comes next.
- `app/` is the program: the window, the container engine, the network, files,
  and the SSH connection. It carries out what the library decides, converts
  values, and does what needs floating-point numbers: the sizes in megabytes and
  the width of the progress bar. Building it needs two crates that the manifest
  leaves out for the size of their trees, `rfd` and `i-slint-backend-winit`.
- `tests/` runs the library.

## What is taken on trust

The contracts of the functions marked `external_body` and of the
`assume_specification` items are not proved. They speak of `fst`, `serde_json`,
paths, letter case and the decoding of bytes; each says in its comment what it
claims.

Progress is kept as an exact fraction, so that no rule rests on floating-point
numbers; the window divides.
