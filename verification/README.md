# rustical

The verified core of a CalDAV/CardDAV server, written in Verus.

- `src/xml` reads and writes the XML of WebDAV requests and responses: text
  values, namespaces and prefixes, the decisions taken on each event while
  a document is read, and the documents read from and written to text with
  `quick_xml`.
- `src/xml_derive` holds what the XML derive macros decide about the types
  they are applied to: names, field kinds, how a struct is written and read,
  which variant an enum reads, the property names an enum lists.
- `src/webhook` builds, signs and delivers webhook payloads, with retries.
- `src/store` holds the rules of the SQLite stores: rows to calendars and
  principals, birthday calendars, synchronisation, error mapping and push
  notifications.
- `app/` runs the parts that do I/O: the XML reader and writer loops, the
  webhook controller and the subscription endpoint.
