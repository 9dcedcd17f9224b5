# blokmap

The rules of the Blokmap backend as a Verus library: every function in `src/`
carries a contract, Verus proves all of them but the small trusted wrappers
around outside crates, and the laws that tie functions together are public
proof functions.

## Layout

- `src/reservation.rs`: the checks a new reservation passes (bounds, reservation
  period, length, free seats) and the laws about full blocks and seat capacity.
- `src/pagination.rs`: page options, offsets, and cutting pages out of loaded
  results.
- `src/permissions.rs`: the permission flags of authority members.
- `src/auth.rs`, `src/error.rs`: request validation, single sign-on checks and
  cookies, and the errors answered to clients.
- `src/config.rs`, `src/urls.rs`: the configuration read from environment
  values.
- `src/location.rs`: joined records, grouping related data, the week a search
  covers.
- `src/translation.rs`, `src/keys.rs`, `src/image.rs`: translations, random
  keys and image paths.
- `src/template.rs`, `src/mailer.rs`: multi-format mail templates, mail links
  and delivery choice.
- `src/seeder/`: for a development database, batch sizes of bulk inserts
  (`batches.rs`), distinct fake values (`unique.rs`), random dates and opening
  times (`dates.rs`), and random reservations that fit their opening times
  and do not overlap (`reservations.rs`), drawn with `random.rs`.
- `src/time.rs`, `src/text.rs`: times of day, dates, and string building.

Calls into outside crates (`chrono`, `regex`, `validator`, `uuid`,
`convert_case`, `rand`, `url`, `lettre`, `argon2`) sit behind small trusted
wrappers whose contracts say what the crate's source shows.

`app/` reads the environment and files, and turns the outside crates' values
(JSON bodies, database and hashing errors, mail messages) into the library's
types and back. The HTTP server, database and cache access are not part of
this crate.
