# server_side

Verified logic of the plugin repository and update server of a desktop
application, written in Verus.

- `src/` is the library, verified by Verus. The functions that read the
  system clock state only what holds whatever time it gives; the others
  state their results exactly:
  - `text`: trimming, splitting and decimal numbers over characters;
  - `clock`: points in time and the system clock;
  - `data`: semantic versions (parsing, text, order) and the plugin
    descriptor;
  - `server`: application versions with release qualifiers, accounts and
    licenses, and the decisions of the update endpoints;
  - `repo`: resource paths, plugin metadata, the search query, publishing
    authorisation, the database writes of a publication, and reading plugin
    jars and build jars.
- `tests/` runs the library on concrete values.
- `app/` holds the two HTTP servers around the library: requests, files,
  the databases and JSON.
