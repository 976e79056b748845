# census

The verified core of a small community site: it renders the site's HTML
pages, orders a user's sessions, reads session revocation forms, and decides
what each request handler answers.

- `src/` is the library, verified with Verus.
  - `structs.rs`: users, sessions, instants and the navigation pages.
  - `text.rs`: decimal numbers, HTML escaping, suffix tests and trimming, with
    the laws they obey.
  - `html_templates.rs`: every page and fragment, each with a specification of
    the exact text it produces.
  - `endpoints.rs`: session ordering (with its sortedness, permutation and
    tie-order laws), revocation forms, and the replies of the handlers.
  - `database.rs`: database failure messages and the stored avatar address.
  - `bindings.rs`: the calls into maud, chrono, url, serde_urlencoded and
    lightningcss, with the contracts the library relies on.
  - `site.rs`: the site's name and address.
- `app/` is the actix-web service: handlers, the Postgres layer, extractors and
  the serializable records.
- `tests/` exercises the library on concrete values.
