# superheroes

The logic of the superheroes sample services (heroes, villains, locations and
fights), verified with Verus.

- `src/` is the verified library:
  - `heroes`, `villains`, `location`: the rows of the tables and the wire form of
    locations, with their conversions and the replies of the locations service;
  - `lookup`: the status and body that answer a lookup;
  - `seeding`: the statements that seed the tables, taken from the SQL scripts
    (split at `;`, from `INSERT INTO` on, trimmed, with `nextval('<seq>')` replaced
    by ids 1, 51, 101, ...);
  - `text`: the character-level operations that seeding uses (split, find, trim,
    replace, decimal notation), each against its specification;
  - `fights`: fight records, the winner drawn at random, the parameters of the
    insert into the `fights` table, and the URLs of the heroes and villains services.
- `tests/` runs the library on concrete values.
- `app/` is the four services themselves (axum, sqlx, tonic, reqwest); the first
  argument names the service to run. The seed scripts are read at start-up from
  `database/…` below the working directory.
