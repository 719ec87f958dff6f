# controle_producao

Backend of a garment workshop: administrators register cuts of fabric and
their lines, workers record how many pieces of each line went through each
step, and a dashboard sums it up. Users sign in with a PIN and carry a JWT.

- `src/` is the verified library (Verus):
  - `json` writes JSON string literals and integers in the compact form that
    `serde_json` uses; the text is proved against its own specification
    (including that it identifies what was written), while its agreement
    with `serde_json` rests on a test that compares the two;
  - `jwt` builds the claims of a token and signs them (HS256) with an
    expiration 24 hours after the instant the caller passes in, checks the
    signature of a token and gives back its payload (a token it issued gives
    back exactly the claims it was issued with), and refuses expired claims;
  - `acesso` signs a user in with a PIN (bcrypt) and hashes the PIN of a new
    user;
  - `autorizacao` reads the bearer token of a request and decides on the
    administrator role;
  - `regras` holds the rules on production entries, new cut lines and report
    periods;
  - `erros` gives each error its HTTP status and JSON body;
  - `modelos` holds the records of users and production entries.
- `app/` is the HTTP server (axum, sqlx on SQLite): routes, database queries,
  reading the clock, parsing a token's payload into claims with serde, and
  the floating-point computations of cut lines and percentages.
- `tests/` exercises the library on concrete values.
