# prokuro

Logic of a bill-of-materials service: it reads boms from CSV files and workbooks, looks
parts up in catalogues, scores the risk of each line, and keeps boms, teams and plans.

The library in `src/` is written in Verus. Every function states what it returns or
changes, and the statements are proved. Public proof functions state the laws that hold
across functions.

- `parser/`: encodings, separated values, workbooks, finding the header, what each column
  means, the line of each row, reports on a batch of files.
- `enrichment/`: keys of parts, the cache, the queue of open parts, what catalogues answer,
  how often they are asked.
- `gateway/`: risk, briefs, stored boms and their versions, billing and webhooks, teams and
  invites, notes for a CRM, who a caller is.
- `model/`: what the services share.
- `text/`, `json.rs`, `strmap.rs`, `dynamo.rs`, `sorting.rs`, `tally.rs`, `clock.rs`, `ids.rs`,
  `http.rs`: texts, values, tables, points in time.

What outside crates compute is called behind small functions marked
`#[verifier::external_body]`. The comment above each says which function it calls and what
is believed of it without proof. A result that takes pages to describe has a name instead:
a spec function without a body.

Numbers with a fraction do not occur in the library. A quantity is kept as its decimal text,
a duty as the bit pattern and the texts of the number, the confidence of a mapping in
hundredths, and a risk score as the counts it is made of.

`app/` holds what is left: `main`, files, network, tables, and the copies of the library's
types that are sent as JSON. It has the programs `parser`, `enrichment`, `gateway` and
`corpus`.
